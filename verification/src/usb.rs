//! Safe ejection of the stick: the volume argument for `mountvol`.

use vstd::prelude::*;
use vstd::string::{StrSliceExecFns, StringExecFns};
use crate::text::{ascii_upper, owned_all, push_char, to_ascii_upper};

verus! {

/// The volume that `mountvol <volume> /p` is given to eject the stick at
/// `usb_root`: its drive letter upper-cased and a colon; an error naming the
/// root when it is empty.
pub fn eject_target(usb_root: &str) -> (r: Result<String, String>)
    ensures
        usb_root@.len() == 0 <==> r is Err,
        r matches Ok(v) ==> v@ == seq![ascii_upper(usb_root@[0]), ':'],
        r matches Err(e) ==> e@ == "cannot read drive letter from "@ + usb_root@,
{
    if usb_root.unicode_len() == 0 {
        let mut e = String::from_str("cannot read drive letter from ");
        e.append(usb_root);
        return Err(e);
    }
    let mut v = String::new();
    push_char(&mut v, to_ascii_upper(usb_root.get_char(0)));
    push_char(&mut v, ':');
    assert(v@ =~= seq![ascii_upper(usb_root@[0]), ':']);
    Ok(v)
}

/// The `mountvol.exe` arguments that flush and release `volume`.
pub fn mountvol_args(volume: &str) -> (r: Vec<String>)
    ensures
        r@.map_values(|a: String| a@) == seq![volume@, "/p"@],
{
    let items: Vec<&str> = vec![volume, "/p"];
    let r = owned_all(&items);
    assert(items@.map_values(|a: &str| a@) =~= seq![volume@, "/p"@]);
    r
}

/// How an error names the eject command for `volume`.
pub fn mountvol_subject(volume: &str) -> (t: String)
    ensures
        t@ == "mountvol "@ + volume@ + " /p"@,
{
    let mut t = String::from_str("mountvol ");
    t.append(volume);
    t.append(" /p");
    t
}

} // verus!
