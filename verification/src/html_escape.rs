//! Escaping of text that is embedded in XML.

use vstd::prelude::*;

verus! {

/// What stands for `c` in escaped text: an entity for each of `& < > " '`,
/// the character itself otherwise.
pub open spec fn escape_char(c: char) -> Seq<char> {
    if c == '&' {
        seq!['&', 'a', 'm', 'p', ';']
    } else if c == '<' {
        seq!['&', 'l', 't', ';']
    } else if c == '>' {
        seq!['&', 'g', 't', ';']
    } else if c == '"' {
        seq!['&', 'q', 'u', 'o', 't', ';']
    } else if c == '\'' {
        seq!['&', '#', '3', '9', ';']
    } else {
        seq![c]
    }
}

/// `text` with every character replaced by what stands for it.
pub open spec fn escaped(text: Seq<char>) -> Seq<char>
    decreases text.len(),
{
    if text.len() == 0 {
        Seq::empty()
    } else {
        escaped(text.drop_last()) + escape_char(text.last())
    }
}

/// Whether `c` is one of the characters that delimit markup: `< > " '`.
pub open spec fn is_markup(c: char) -> bool {
    c == '<' || c == '>' || c == '"' || c == '\''
}

/// Whether an entity stands in `text` at position `i`.
pub open spec fn entity_at(text: Seq<char>, i: int) -> bool {
    exists|c: char|
        (c == '&' || is_markup(c)) && i + (#[trigger] escape_char(c)).len() <= text.len()
            && text.subrange(i, i + escape_char(c).len()) == escape_char(c)
}

/// Escaped text holds none of `< > " '`, and holds `&` only at the head of
/// an entity.
pub proof fn law_escaped_is_plain(text: Seq<char>)
    ensures
        forall|i: int| 0 <= i < escaped(text).len() ==> !is_markup(#[trigger] escaped(text)[i]),
        forall|i: int|
            0 <= i < escaped(text).len() && #[trigger] escaped(text)[i] == '&' ==> entity_at(
                escaped(text),
                i,
            ),
    decreases text.len(),
{
    if text.len() > 0 {
        let head = escaped(text.drop_last());
        let tail = escape_char(text.last());
        let all = escaped(text);
        law_escaped_is_plain(text.drop_last());
        assert forall|i: int| 0 <= i < all.len() implies !is_markup(#[trigger] all[i]) by {
            if i < head.len() {
                assert(all[i] == head[i]);
            } else {
                assert(all[i] == tail[i - head.len()]);
            }
        }
        assert forall|i: int| 0 <= i < all.len() && #[trigger] all[i] == '&' implies entity_at(
            all,
            i,
        ) by {
            if i < head.len() {
                assert(all[i] == head[i]);
                let c = choose|c: char|
                    (c == '&' || is_markup(c)) && i + (#[trigger] escape_char(c)).len()
                        <= head.len() && head.subrange(i, i + escape_char(c).len())
                        == escape_char(c);
                assert(all.subrange(i, i + escape_char(c).len()) =~= head.subrange(
                    i,
                    i + escape_char(c).len(),
                ));
            } else {
                assert(all[i] == tail[i - head.len()]);
                let c = text.last();
                assert(i == head.len());
                assert(all.subrange(i, i + tail.len()) =~= tail);
            }
        }
    }
}

/// Escaping makes a text at most six times as long, and never shorter.
pub proof fn law_escaped_length(text: Seq<char>)
    ensures
        text.len() <= escaped(text).len() <= 6 * text.len(),
    decreases text.len(),
{
    if text.len() > 0 {
        law_escaped_length(text.drop_last());
    }
}

/// Escapes `& < > " '` in `text`.
pub fn encode_text(text: &str) -> (out: String)
    ensures
        out@ == escaped(text@),
{
    let mut out = String::new();
    for c in it: text.chars()
        invariant
            it.seq() == text@,
            out@ == escaped(text@.take(it.index())),
    {
        let ghost before = text@.take(it.index());
        let ghost after = text@.take(it.index() + 1);
        assert(after.drop_last() == before);
        assert(after.last() == c);
        if c == '&' {
            out.append("&amp;");
            proof {
                reveal_strlit("&amp;");
                assert("&amp;"@ == escape_char(c));
            }
        } else if c == '<' {
            out.append("&lt;");
            proof {
                reveal_strlit("&lt;");
                assert("&lt;"@ == escape_char(c));
            }
        } else if c == '>' {
            out.append("&gt;");
            proof {
                reveal_strlit("&gt;");
                assert("&gt;"@ == escape_char(c));
            }
        } else if c == '"' {
            out.append("&quot;");
            proof {
                reveal_strlit("&quot;");
                assert("&quot;"@ == escape_char(c));
            }
        } else if c == '\'' {
            out.append("&#39;");
            proof {
                reveal_strlit("&#39;");
                assert("&#39;"@ == escape_char(c));
            }
        } else {
            crate::text::push_char(&mut out, c);
            assert(seq![c] == escape_char(c));
            assert(escaped(before).push(c) == escaped(before) + seq![c]);
        }
    }
    assert(text@.take(text@.len() as int) == text@);
    out
}

} // verus!
