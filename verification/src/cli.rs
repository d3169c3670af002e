//! The command line of the mockup generator.
use vstd::prelude::*;

verus! {

/// `i` is the first position at which `arg` occurs in `args`.
pub open spec fn first_occurrence(args: Seq<String>, arg: Seq<char>, i: int) -> bool {
    &&& 0 <= i < args.len()
    &&& args[i]@ == arg
    &&& forall|j: int| 0 <= j < i ==> #[trigger] args[j]@ != arg
}

/// The value given for the option `arg`: the argument after its first
/// occurrence, or `default` when `args` does not hold `arg`. An option given
/// last, without a value, has none to give.
pub fn get_argument(arg: &str, args: &Vec<String>, default: &str) -> (r: String)
    requires
        forall|i: int| first_occurrence(args@, arg@, i) ==> i + 1 < args@.len(),
    ensures
        forall|i: int| first_occurrence(args@, arg@, i) ==> r@ == args@[i + 1]@,
        (forall|i: int| 0 <= i < args@.len() ==> #[trigger] args@[i]@ != arg@) ==> r@ == default@,
{
    let mut i: usize = 0;
    while i < args.len()
        invariant
            i <= args@.len(),
            forall|j: int| 0 <= j < i ==> #[trigger] args@[j]@ != arg@,
            forall|k: int| first_occurrence(args@, arg@, k) ==> k + 1 < args@.len(),
        decreases args@.len() - i,
    {
        if crate::text::same_text(args[i].as_str(), arg) {
            assert(first_occurrence(args@, arg@, i as int));
            assert forall|k: int| first_occurrence(args@, arg@, k) implies k == i by {
                if k < i {
                    assert(args@[k]@ != arg@);
                } else if k > i {
                    assert(args@[i as int]@ == arg@);
                }
            }
            return args[i + 1].clone();
        }
        i = i + 1;
    }
    default.to_owned()
}

} // verus!
