use vstd::prelude::*;

verus! {

/// The text of the desktop notice at the end of a run: whether it succeeded,
/// and which alias ran if one is named.
pub open spec fn notice_body_of(success: bool, alias: Option<Seq<char>>) -> Seq<char> {
    match alias {
        Some(a) => if success {
            "Alias '"@ + a + "' finished successfully."@
        } else {
            "Alias '"@ + a + "' failed."@
        },
        None => if success {
            "Command finished successfully."@
        } else {
            "Command failed."@
        },
    }
}

/// The text of the desktop notice at the end of a run.
pub fn notice_body(success: bool, alias: Option<&str>) -> (r: String)
    ensures
        r@ == notice_body_of(success, match alias {
            Some(a) => Some(a@),
            None => None,
        }),
{
    match alias {
        Some(a) => {
            let mut r = "Alias '".to_owned();
            r.append(a);
            if success {
                r.append("' finished successfully.");
            } else {
                r.append("' failed.");
            }
            r
        },
        None => if success {
            "Command finished successfully.".to_owned()
        } else {
            "Command failed.".to_owned()
        },
    }
}

/// The title of the desktop notice: the program's mark and its name.
pub fn notice_title(program_name: &str) -> (r: String)
    ensures
        r@ == "🐙 "@ + program_name@,
{
    let mut r = "🐙 ".to_owned();
    r.append(program_name);
    r
}

} // verus!
