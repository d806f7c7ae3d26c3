//! The earlier parameter lookup, which gives a present parameter's value as it stands.
use vstd::prelude::*;
use crate::argparse::{first_head_value, heads_reachable};
use crate::text::{copy_str, str_eq};

verus! {

/// The value of the parameter `value_to_find` in the first pair of the first inner list
/// that names it, or the empty string where no list names it.
pub fn get_param_value(command_vector: Vec<Vec<(String, String)>>, value_to_find: &str) -> (res: String)
    requires
        heads_reachable(command_vector@, value_to_find@),
    ensures
        res@ == match first_head_value(command_vector@, value_to_find@) {
            Some(v) => v,
            None => Seq::<char>::empty(),
        },
{
    let n = command_vector.len();
    assert(command_vector@.skip(0) == command_vector@);
    for i in 0..n
        invariant
            n == command_vector@.len(),
            heads_reachable(command_vector@.skip(i as int), value_to_find@),
            first_head_value(command_vector@, value_to_find@) == first_head_value(
                command_vector@.skip(i as int),
                value_to_find@,
            ),
    {
        let ghost rest = command_vector@.skip(i as int);
        assert(rest[0] == command_vector@[i as int]);
        assert(rest.drop_first() =~= command_vector@.skip(i + 1));
        let command = &command_vector[i];
        if str_eq(command[0].0.as_str(), value_to_find) {
            return copy_str(command[0].1.as_str());
        }
    }
    String::new()
}

} // verus!
