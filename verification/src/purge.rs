//! The `--purge` command.
use vstd::prelude::*;
use crate::argparse::{blank, first_head_value, get_param_value, heads_reachable};
use crate::text::{copy_str, split_char, split_spec, str_eq, views};

verus! {

/// What `--purge` removes.
#[derive(PartialEq, Eq, Structural, Clone, Copy, Debug)]
pub enum PurgeTarget {
    /// The downloaded deployments.
    Cache,
    /// The installed Roblox Player and Studio.
    Installs,
}

/// Why `--purge` removes nothing.
pub enum PurgeArgsError {
    /// `--purge` was given without a value.
    Blank,
    /// The value names nothing that can be purged.
    Unknown(String),
}

/// The first word of the value of `--purge` (`blank` where it has none).
pub open spec fn purge_word(args: Seq<Vec<(String, String)>>) -> Seq<char> {
    let value = match first_head_value(args, "purge"@) {
        Some(v) => if v.len() == 0 { blank() } else { v },
        None => Seq::<char>::empty(),
    };
    split_spec(value, ' ')[0]
}

/// What the arguments of `--purge` ask to remove: `cache` or `installs`.
pub fn purge_target(args: Vec<Vec<(String, String)>>) -> (res: Result<PurgeTarget, PurgeArgsError>)
    requires
        heads_reachable(args@, "purge"@),
    ensures
        ({
            let w = purge_word(args@);
            match res {
                Ok(PurgeTarget::Cache) => w == "cache"@,
                Ok(PurgeTarget::Installs) => w == "installs"@,
                Err(PurgeArgsError::Blank) => w == "blank"@,
                Err(PurgeArgsError::Unknown(s)) => s@ == w && w != "blank"@ && w != "cache"@ && w != "installs"@,
            }
        }),
{
    proof {
        reveal_strlit("blank");
        assert("blank"@ =~= blank());
    }
    let ghost args_view = args@;
    let binding = get_param_value(args, "purge");
    let parsed = split_char(binding.as_str(), ' ');
    proof {
        crate::text::lemma_split_nonempty(binding@, ' ');
    }
    assert(views(parsed@)[0] == parsed@[0]@);
    let word = parsed[0].as_str();
    if str_eq(word, "blank") {
        Err(PurgeArgsError::Blank)
    } else if str_eq(word, "cache") {
        Ok(PurgeTarget::Cache)
    } else if str_eq(word, "installs") {
        Ok(PurgeTarget::Installs)
    } else {
        Err(PurgeArgsError::Unknown(copy_str(word)))
    }
}

} // verus!
