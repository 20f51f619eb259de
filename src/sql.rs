//! Assembling statement text from fragments.
use vstd::prelude::*;

verus! {

/// The parts, in order, with `sep` between each two.
pub open spec fn joined(parts: Seq<Seq<char>>, sep: Seq<char>) -> Seq<char>
    decreases parts.len(),
{
    if parts.len() == 0 {
        Seq::empty()
    } else if parts.len() == 1 {
        parts[0]
    } else {
        joined(parts.drop_last(), sep) + sep + parts.last()
    }
}

/// Appends `parts` to `s`, separated by `sep`.
pub fn append_joined(s: &mut String, parts: &Vec<&str>, sep: &str)
    ensures
        final(s)@ == old(s)@ + joined(parts@.map_values(|p: &str| p@), sep@),
{
    let ghost start = s@;
    let ghost views = parts@.map_values(|p: &str| p@);
    let mut i: usize = 0;
    while i < parts.len()
        invariant
            i <= parts.len(),
            views == parts@.map_values(|p: &str| p@),
            s@ == start + joined(views.take(i as int), sep@),
        decreases parts.len() - i,
    {
        proof {
            assert(views.take(i as int + 1).drop_last() =~= views.take(i as int));
        }
        if i > 0 {
            s.append(sep);
        }
        s.append(parts[i]);
        proof {
            if i == 0 {
                assert(views.take(1) =~= seq![views[0]]);
                assert(joined(views.take(0), sep@) =~= Seq::<char>::empty());
            }
            assert(s@ =~= start + joined(views.take(i as int + 1), sep@));
        }
        i = i + 1;
    }
    proof {
        assert(views.take(parts.len() as int) =~= views);
    }
}

} // verus!

verus! {

/// A parameterized statement: its text, and the values bound to its `?`
/// placeholders in order.
#[derive(Clone, Debug)]
pub struct Statement {
    pub sql: String,
    pub params: Vec<crate::value::Value>,
}

} // verus!
