//! The patterns of SQL's `LIKE`.

use vstd::prelude::*;

verus! {

/// SQL's `LIKE`: `%` stands for any text, `_` for any character, and a
/// backslash takes the character after it as it is.
pub open spec fn like(pattern: Seq<char>, text: Seq<char>) -> bool
    decreases pattern.len(), text.len(),
{
    if pattern.len() == 0 {
        text.len() == 0
    } else if pattern[0] == '%' {
        like(pattern.skip(1), text) || (text.len() > 0 && like(pattern, text.skip(1)))
    } else if pattern[0] == '\\' && pattern.len() >= 2 {
        text.len() > 0 && text[0] == pattern[1] && like(pattern.skip(2), text.skip(1))
    } else {
        text.len() > 0 && (pattern[0] == '_' || pattern[0] == text[0]) && like(
            pattern.skip(1),
            text.skip(1),
        )
    }
}

/// The characters that mean something else in a pattern.
pub open spec fn is_special(c: char) -> bool {
    c == '%' || c == '_' || c == '\\'
}

/// A pattern that one character fits, and no other.
pub open spec fn literal(c: char) -> Seq<char> {
    if is_special(c) {
        seq!['\\', c]
    } else {
        seq![c]
    }
}

/// A pattern that one text fits, and no other.
pub open spec fn literally(text: Seq<char>) -> Seq<char>
    decreases text.len(),
{
    if text.len() == 0 {
        Seq::empty()
    } else {
        literal(text[0]) + literally(text.skip(1))
    }
}

proof fn anything_is_like_percent(text: Seq<char>)
    ensures
        like(seq!['%'], text),
    decreases text.len(),
{
    reveal_with_fuel(like, 2);
    let pattern = seq!['%'];
    assert(pattern.skip(1) =~= Seq::<char>::empty());
    if text.len() > 0 {
        anything_is_like_percent(text.skip(1));
    }
}

/// The texts that fit a text taken literally and followed by `%` are those that
/// begin with it.
pub proof fn like_is_beginning(text: Seq<char>, name: Seq<char>)
    ensures
        like(literally(text).push('%'), name) <==> text.is_prefix_of(name),
    decreases text.len(),
{
    let pattern = literally(text).push('%');
    if text.len() == 0 {
        assert(pattern =~= seq!['%']);
        anything_is_like_percent(name);
        assert(name.subrange(0, 0) =~= text);
    } else {
        let rest = text.skip(1);
        let c = text[0];
        if is_special(c) {
            assert(pattern[0] == '\\' && pattern[1] == c);
            assert(pattern.skip(2) =~= literally(rest).push('%'));
        } else {
            assert(pattern[0] == c);
            assert(pattern.skip(1) =~= literally(rest).push('%'));
        }
        if name.len() > 0 {
            let tail = name.skip(1);
            like_is_beginning(rest, tail);
            if text.is_prefix_of(name) {
                assert(name[0] == name.subrange(0, text.len() as int)[0]);
                assert forall|i: int| 0 <= i < rest.len() implies rest[i] == tail[i] by {
                    assert(text[i + 1] == name.subrange(0, text.len() as int)[i + 1]);
                }
                assert(rest =~= tail.subrange(0, rest.len() as int));
            }
            if name[0] == c && rest.is_prefix_of(tail) {
                assert forall|i: int| 0 <= i < text.len() implies text[i] == name[i] by {
                    if i > 0 {
                        assert(rest[i - 1] == tail.subrange(0, rest.len() as int)[i - 1]);
                    }
                }
                assert(text =~= name.subrange(0, text.len() as int));
            }
        }
    }
}

/// The pattern for the texts that begin with `text`.
pub fn like_prefix(text: &str) -> (pattern: String)
    ensures
        pattern@ == literally(text@).push('%'),
        forall|name: Seq<char>| #[trigger] like(pattern@, name) <==> text@.is_prefix_of(name),
{
    let mut pattern = String::new();
    let n: usize = text.unicode_len();
    proof {
        reveal_strlit("\\");
        reveal_strlit("%");
        assert(text@.skip(0) =~= text@);
    }
    for i in 0..n
        invariant
            n == text@.len(),
            "\\"@ =~= seq!['\\'],
            pattern@ + literally(text@.skip(i as int)) == literally(text@),
    {
        let c = text.get_char(i);
        let ghost before = pattern@;
        proof {
            assert(text@.skip(i as int)[0] == c);
            assert(text@.skip(i as int).skip(1) =~= text@.skip(i + 1));
        }
        if c == '%' || c == '_' || c == '\\' {
            pattern.append("\\");
        }
        pattern.append(text.substring_char(i, i + 1));
        proof {
            assert(pattern@ =~= before + literal(c));
            assert(pattern@ + literally(text@.skip(i + 1)) =~= before + (literal(c) + literally(
                text@.skip(i + 1),
            )));
        }
    }
    proof {
        assert(text@.skip(n as int) =~= Seq::<char>::empty());
        assert(pattern@ =~= literally(text@));
    }
    pattern.append("%");
    proof {
        assert(pattern@ =~= literally(text@).push('%'));
        assert forall|name: Seq<char>| #[trigger] like(pattern@, name) <==> text@.is_prefix_of(
            name,
        ) by {
            like_is_beginning(text@, name);
        }
    }
    pattern
}

} // verus!
