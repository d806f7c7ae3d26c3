//! Finding the Proton installations that Steam has installed.
use vstd::prelude::*;
use crate::json::{entries, string_of, JsonValue};
use crate::text::{concat, contains, contains_spec};

verus! {

/// The Proton installations among the folders `folders` (name, path) of Steam's
/// `steamapps/common`: each folder whose name holds `Proton`, with the path of its `proton`
/// program.
pub open spec fn proton_folders(folders: Seq<(String, String)>) -> Seq<(Seq<char>, Seq<char>)>
    decreases folders.len(),
{
    if folders.len() == 0 {
        Seq::empty()
    } else {
        let rest = proton_folders(folders.drop_last());
        let (name, path) = folders.last();
        if contains_spec(name@, "Proton"@) {
            rest.push((name@, path@ + "/proton"@))
        } else {
            rest
        }
    }
}

/// The installations as an object of (name, path) members, in the order of `found`.
pub open spec fn object_of(v: JsonValue, found: Seq<(Seq<char>, Seq<char>)>) -> bool {
    &&& v is Object
    &&& entries(v).len() == found.len()
    &&& forall|i: int| 0 <= i < found.len() ==> (#[trigger] entries(v)[i]).0@ == found[i].0
        && string_of(entries(v)[i].1) == Some(found[i].1)
}

/// The Proton installations among the folders `folders` (name, path) of Steam's
/// `steamapps/common`, as the object that the configuration keeps them in.
pub fn discover_proton_directory(folders: &Vec<(String, String)>) -> (res: JsonValue)
    ensures
        object_of(res, proton_folders(folders@)),
{
    let mut es: Vec<(String, JsonValue)> = Vec::new();
    assert(folders@.take(0) =~= Seq::<(String, String)>::empty());
    for i in 0..folders.len()
        invariant
            ({
                let found = proton_folders(folders@.take(i as int));
                &&& es@.len() == found.len()
                &&& forall|k: int| 0 <= k < found.len() ==> (#[trigger] es@[k]).0@ == found[k].0
                    && string_of(es@[k].1) == Some(found[k].1)
            }),
    {
        assert(folders@.take(i + 1).drop_last() =~= folders@.take(i as int));
        assert(folders@.take(i + 1).last() == folders@[i as int]);
        let name = folders[i].0.as_str();
        if contains(name, "Proton") {
            let path = concat(folders[i].1.as_str(), "/proton");
            es.push((crate::text::copy_str(name), JsonValue::String(path)));
        }
    }
    assert(folders@.take(folders@.len() as int) =~= folders@);
    JsonValue::Object(es)
}

} // verus!
