//! Texts that the checklist shows next to its steps.

use vstd::prelude::*;
use crate::text::{chars_of, push_chars};

verus! {

/// The RAM step's label: the requirement while no amount is known, the
/// amount read once it is.
pub fn ram_label(ram: &str) -> (r: String)
    ensures
        r@ == if ram@.len() == 0 {
            "At least 8 GB of RAM"@
        } else {
            ram@ + " GB of RAM"@
        },
{
    let mut s = String::new();
    let ram_chars = chars_of(ram);
    if ram_chars.len() == 0 {
        push_chars(&mut s, chars_of("At least 8 GB of RAM").as_slice());
        assert(Seq::<char>::empty() + "At least 8 GB of RAM"@ =~= "At least 8 GB of RAM"@);
    } else {
        push_chars(&mut s, ram_chars.as_slice());
        push_chars(&mut s, chars_of(" GB of RAM").as_slice());
        assert(Seq::<char>::empty() + ram@ =~= ram@);
    }
    s
}

/// The game step's note on the version found: ` (version: <version>)`, or
/// nothing while no version is known.
pub fn version_note(version: &str) -> (r: Option<String>)
    ensures
        version@.len() == 0 ==> r is None,
        version@.len() > 0 ==> (r matches Some(s) && s@ == " (version: "@ + version@ + ")"@),
{
    let v = chars_of(version);
    if v.len() == 0 {
        return None;
    }
    let mut s = String::new();
    push_chars(&mut s, chars_of(" (version: ").as_slice());
    push_chars(&mut s, v.as_slice());
    push_chars(&mut s, chars_of(")").as_slice());
    assert(Seq::<char>::empty() + " (version: "@ =~= " (version: "@);
    Some(s)
}

/// The label of a download link: `Download <name>`.
pub fn download_label(name: &str) -> (r: String)
    ensures
        r@ == "Download "@ + name@,
{
    let mut s = String::new();
    push_chars(&mut s, chars_of("Download ").as_slice());
    push_chars(&mut s, chars_of(name).as_slice());
    assert(Seq::<char>::empty() + "Download "@ =~= "Download "@);
    s
}

/// The label of an install step: `Unzip & Install <name>`.
pub fn install_label(name: &str) -> (r: String)
    ensures
        r@ == "Unzip & Install "@ + name@,
{
    let mut s = String::new();
    push_chars(&mut s, chars_of("Unzip & Install ").as_slice());
    push_chars(&mut s, chars_of(name).as_slice());
    assert(Seq::<char>::empty() + "Unzip & Install "@ =~= "Unzip & Install "@);
    s
}

} // verus!
