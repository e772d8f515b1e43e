use crate::path::chars_of;
use vstd::prelude::*;
use vstd::string::StringExecFns;

verus! {

/// A value as it is written into a service file: in double quotes where it
/// holds a space.
pub open spec fn quoted_if_needed(value: Seq<char>) -> Seq<char> {
    if value.contains(' ') {
        "\""@ + value + "\""@
    } else {
        value
    }
}

/// A value as it is written into a service file.
pub fn quote_if_needed(value: &str) -> (r: String)
    ensures
        r@ == quoted_if_needed(value@),
{
    let chars = chars_of(value);
    let mut i: usize = 0;
    while i < chars.len()
        invariant
            i <= chars.len(),
            chars@ == value@,
            forall|k: int| 0 <= k < i ==> chars@[k] != ' ',
        decreases chars.len() - i,
    {
        if chars[i] == ' ' {
            assert(value@[i as int] == ' ');
            let mut r = String::from_str("\"");
            r.append(value);
            r.append("\"");
            return r;
        }
        i += 1;
    }
    value.to_owned()
}

/// The text of the systemd service file for the program in `working_dir`,
/// run from `executable_path` with the configuration at `config_path`.
pub open spec fn service_file(
    working_dir: Seq<char>,
    executable_path: Seq<char>,
    config_path: Seq<char>,
) -> Seq<char> {
    "[Unit]\nDescription=Pi-hole Sync Service\nAfter=network.target pihole-FTL.service\n\n[Service]\nWorkingDirectory="@
        + quoted_if_needed(working_dir)
        + "\nRestart=always\nUser=pihole\nGroup=pihole\nEnvironment=\"RUST_LOG=info\"\nExecStart="@
        + quoted_if_needed(executable_path) + " -c "@ + quoted_if_needed(config_path)
        + " sync\n\n[Install]\nWantedBy=multi-user.target\n"@
}

/// The text of the systemd service file.
pub fn create_systemd_service(working_dir: &str, executable_path: &str, config_path: &str) -> (text:
    String)
    ensures
        text@ == service_file(working_dir@, executable_path@, config_path@),
{
    let mut text = String::from_str(
        "[Unit]\nDescription=Pi-hole Sync Service\nAfter=network.target pihole-FTL.service\n\n[Service]\nWorkingDirectory=",
    );
    text.append(quote_if_needed(working_dir).as_str());
    text.append(
        "\nRestart=always\nUser=pihole\nGroup=pihole\nEnvironment=\"RUST_LOG=info\"\nExecStart=",
    );
    text.append(quote_if_needed(executable_path).as_str());
    text.append(" -c ");
    text.append(quote_if_needed(config_path).as_str());
    text.append(" sync\n\n[Install]\nWantedBy=multi-user.target\n");
    text
}

} // verus!
