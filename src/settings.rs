use vstd::prelude::*;
use crate::text::append;

verus! {

/// The message for a setting whose value could not be read: the setting's
/// dotted key and the reason.
pub fn invalid_value_message(key: &str, reason: &str) -> (r: String)
    ensures
        r@ == "Invalid value of `"@ + key@ + "`: "@ + reason@,
{
    let mut s = "Invalid value of `".to_owned();
    append(&mut s, key);
    append(&mut s, "`: ");
    append(&mut s, reason);
    s
}

/// Checks the formatter setting: no command at all, or a non-empty
/// argument list; an empty list is refused with a message.
pub fn validate_formatting_command(cmd: Option<Vec<String>>) -> (r: Result<
    Option<Vec<String>>,
    String,
>)
    ensures
        (cmd matches Some(v) && v@.len() == 0) ==> (r matches Err(m) && m@
            == "`formatting.command` must not be an empty list"@),
        !(cmd matches Some(v) && v@.len() == 0) ==> r == Ok::<Option<Vec<String>>, String>(cmd),
{
    match cmd {
        Some(v) => if v.len() == 0 {
            Err("`formatting.command` must not be an empty list".to_owned())
        } else {
            Ok(Some(v))
        },
        None => Ok(None),
    }
}

} // verus!
