//! Text shown by the developer tools.

use vstd::prelude::*;
use vstd::string::StringExecFns;
use crate::text::decimal_string;
use crate::text::digits;

verus! {

/// The first name among the candidates, in order.
pub open spec fn first_name(candidates: Seq<Option<String>>) -> Option<Seq<char>>
    decreases candidates.len(),
{
    if candidates.len() == 0 {
        None
    } else {
        match candidates[0] {
            Some(name) => Some(name@),
            None => first_name(candidates.skip(1)),
        }
    }
}

/// The label of an entity: `<name> · #<id>` with the first name found
/// among its components, else `Entity #<id>`.
pub open spec fn spec_entity_label(id: u64, candidates: Seq<Option<String>>) -> Seq<char> {
    match first_name(candidates) {
        Some(name) => name + " · #"@ + digits(id as nat, 10),
        None => "Entity #"@ + digits(id as nat, 10),
    }
}

/// The label of an entity, given for each of its components (in the order
/// they are listed) the name or label text it carries, if any.
pub fn entity_label(id: u64, candidates: &Vec<Option<String>>) -> (r: String)
    ensures
        r@ == spec_entity_label(id, candidates@),
{
    let n = candidates.len();
    let mut i: usize = 0;
    proof {
        assert(candidates@.skip(0) =~= candidates@);
    }
    while i < n
        invariant
            n == candidates@.len(),
            i <= n,
            first_name(candidates@.skip(i as int)) == first_name(candidates@),
        decreases n - i,
    {
        proof {
            assert(candidates@.skip(i as int).skip(1) =~= candidates@.skip(i + 1));
            assert(candidates@.skip(i as int)[0] == candidates@[i as int]);
        }
        match &candidates[i] {
            Some(name) => {
                let mut label = name.clone();
                label.append(" · #");
                let number = decimal_string(id);
                label.append(number.as_str());
                return label;
            },
            None => {},
        }
        i = i + 1;
    }
    proof {
        assert(candidates@.skip(n as int).len() == 0);
    }
    let mut label = String::from_str("Entity #");
    let number = decimal_string(id);
    label.append(number.as_str());
    label
}

} // verus!
