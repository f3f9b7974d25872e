//! Escaping of names for the line protocol.

use vstd::prelude::*;

use crate::text::push_char;

verus! {

/// The text `s` with each character replaced by what `rule` gives for it.
pub open spec fn expanded(s: Seq<char>, rule: spec_fn(char) -> Seq<char>) -> Seq<char>
    decreases s.len(),
{
    if s.len() == 0 {
        Seq::<char>::empty()
    } else {
        expanded(s.drop_last(), rule) + rule(s.last())
    }
}

/// Expanding a text that ends in `c` expands the text before it and then `c`.
pub proof fn lemma_expanded_push(s: Seq<char>, c: char, rule: spec_fn(char) -> Seq<char>)
    ensures
        expanded(s.push(c), rule) == expanded(s, rule) + rule(c),
{
    assert(s.push(c).drop_last() =~= s);
}

/// Whether a character of a name has a special meaning in a line.
pub open spec fn is_name_special(c: char) -> bool {
    c == ' ' || c == ',' || c == '='
}

/// A character of a name as it is written in a line: space, comma and equals
/// sign get a backslash in front.
pub open spec fn escaped_name_char(c: char) -> Seq<char> {
    if is_name_special(c) {
        seq!['\\', c]
    } else {
        seq![c]
    }
}

/// A name as it is written in a line.
pub open spec fn escaped_name(name: Seq<char>) -> Seq<char> {
    expanded(name, |c: char| escaped_name_char(c))
}

/// Escapes a measurement, tag or field name for a line.
pub fn escape_name(name: &str) -> (out: String)
    ensures
        out@ == escaped_name(name@),
{
    let mut out = String::new();
    for c in it: name.chars()
        invariant
            it.seq() == name@,
            out@ == escaped_name(name@.take(it.index() as int)),
    {
        proof {
            let k = it.index() as int;
            assert(name@.take(k + 1) =~= name@.take(k).push(c));
            lemma_expanded_push(name@.take(k), c, |c: char| escaped_name_char(c));
        }
        let ghost before = out@;
        if c == ' ' || c == ',' || c == '=' {
            push_char(&mut out, '\\');
        }
        push_char(&mut out, c);
        proof {
            assert(out@ =~= before + escaped_name_char(c));
        }
    }
    proof {
        assert(name@.take(name@.len() as int) =~= name@);
    }
    out
}

} // verus!
