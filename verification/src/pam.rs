//! The decisions at the PAM boundary: which configuration file a module
//! line names, and which PAM status an authentication outcome is reported
//! as.

use vstd::prelude::*;

use crate::text::{has_prefix, strip_prefix};
use crate::AuthResult;

verus! {

/// PAM: success.
pub const PAM_SUCCESS: i32 = 0;

/// PAM: the user is not authenticated.
pub const PAM_AUTH_ERR: i32 = 7;

/// PAM: the application cannot supply enough credentials.
pub const PAM_CRED_INSUFFICIENT: i32 = 8;

/// PAM: the authentication information is unavailable.
pub const PAM_AUTHINFO_UNAVAIL: i32 = 9;

/// PAM item: the conversation function.
pub const PAM_CONV: i32 = 5;

/// PAM item: the user name.
pub const PAM_USER: i32 = 2;

/// PAM message style: prompt without echo.
pub const PAM_PROMPT_ECHO_OFF: i32 = 1;

/// The configuration file when the module line names none.
pub open spec fn default_config_path() -> Seq<char> {
    "/etc/pam_aws_sts.toml"@
}

/// The prefix of the module argument that names the configuration file.
pub open spec fn config_arg_prefix() -> Seq<char> {
    "config="@
}

/// The configuration file named by the module arguments from index `i` on:
/// the rest of the first argument that starts with `config=`, skipping
/// arguments that are absent or not UTF-8 (given as `None`); the default
/// path when there is none.
pub open spec fn config_path_from(args: Seq<Option<Seq<char>>>, i: int) -> Seq<char>
    decreases args.len() - i,
{
    if i >= args.len() || i < 0 {
        default_config_path()
    } else {
        match args[i] {
            Some(a) => if has_prefix(a, config_arg_prefix()) {
                a.skip(config_arg_prefix().len() as int)
            } else {
                config_path_from(args, i + 1)
            },
            None => config_path_from(args, i + 1),
        }
    }
}

/// Module arguments taken as characters.
pub open spec fn args_view(args: Seq<Option<String>>) -> Seq<Option<Seq<char>>> {
    args.map_values(|a: Option<String>| crate::credentials::opt_text(a))
}

/// The configuration file that the module arguments name (see
/// `config_path_from`).
pub fn config_path_from_args(args: &Vec<Option<String>>) -> (r: String)
    ensures
        r@ == config_path_from(args_view(args@), 0),
{
    let ghost view = args_view(args@);
    let mut i: usize = 0;
    while i < args.len()
        invariant
            view == args_view(args@),
            i <= args.len(),
            config_path_from(view, 0) == config_path_from(view, i as int),
        decreases args.len() - i,
    {
        if let Some(a) = &args[i] {
            if let Some(path) = strip_prefix(a.as_str(), "config=") {
                return path.to_owned();
            }
        }
        i += 1;
    }
    "/etc/pam_aws_sts.toml".to_owned()
}

/// The PAM status an authentication outcome is reported as.
pub open spec fn pam_status_of(v: crate::AuthVerdict) -> i32 {
    match v {
        crate::AuthVerdict::Success => PAM_SUCCESS,
        crate::AuthVerdict::InvalidCredentials(_) => PAM_AUTH_ERR,
        crate::AuthVerdict::Error(_) => PAM_AUTHINFO_UNAVAIL,
    }
}

/// Reports an outcome to PAM: success, refused credentials as an
/// authentication error, and other errors as unavailable information.
pub fn pam_status(result: &AuthResult) -> (code: i32)
    ensures
        code == pam_status_of(result@),
{
    match result {
        AuthResult::Success => PAM_SUCCESS,
        AuthResult::InvalidCredentials(_) => PAM_AUTH_ERR,
        AuthResult::Error(_) => PAM_AUTHINFO_UNAVAIL,
    }
}

/// Scanning the arguments from `j` finds what scanning from `i` finds when
/// none of the arguments from `j` up to `i` names a configuration file.
proof fn lemma_scan_skips_to(args: Seq<Option<Seq<char>>>, j: int, i: int)
    requires
        0 <= j <= i,
        forall|k: int|
            j <= k < i && k < args.len() ==> !(#[trigger] args[k] matches Some(b) && has_prefix(
                b,
                "config="@,
            )),
    ensures
        config_path_from(args, j) == config_path_from(args, i),
    decreases i - j,
{
    if j < i {
        lemma_scan_skips_to(args, j + 1, i);
        if j < args.len() {
            assert(!(args[j] matches Some(b) && has_prefix(b, "config="@)));
        }
    }
}

/// The first module argument that starts with `config=` names the
/// configuration file: the path is the rest of that argument, wherever it
/// stands among the arguments and whatever follows it.
pub proof fn law_first_config_argument_wins(args: Seq<Option<Seq<char>>>, i: int)
    requires
        0 <= i < args.len(),
        args[i] matches Some(a) && has_prefix(a, "config="@),
        forall|k: int|
            0 <= k < i ==> !(#[trigger] args[k] matches Some(b) && has_prefix(b, "config="@)),
    ensures
        config_path_from(args, 0) == args[i]->Some_0.skip(7),
{
    reveal_strlit("config=");
    lemma_scan_skips_to(args, 0, i);
}

/// Without an argument that starts with `config=`, the configuration file
/// is `/etc/pam_aws_sts.toml`.
pub proof fn law_default_config_path(args: Seq<Option<Seq<char>>>)
    requires
        forall|k: int|
            0 <= k < args.len() ==> !(#[trigger] args[k] matches Some(b) && has_prefix(b, "config="@)),
    ensures
        config_path_from(args, 0) == "/etc/pam_aws_sts.toml"@,
{
    lemma_scan_skips_to(args, 0, args.len() as int);
}

} // verus!
