//! Decides whether an STS caller identity may log in as a database user:
//! the account must be allowed, the ARN must name an IAM role, and the role
//! must map to the user.

use vstd::prelude::*;

use crate::config::Config;
use crate::sts::CallerIdentity;
use crate::text::{
    has_prefix, lemma_split_on_basics, lemma_split_on_concat, lemma_split_on_single, list_contains,
    split_char, split_on, strip_prefix,
};

verus! {

/// Names the text of `format!("{:?}", items)` for a list of strings, that
/// is std's `Debug` rendering of a `Vec<String>` with these items.
pub uninterp spec fn debug_list_text(items: Seq<Seq<char>>) -> Seq<char>;

/// Renders a list of strings with std's `Debug` (`["a", "b"]`, each item
/// quoted and escaped). Trusted: the result is `debug_list_text` of the
/// items; what that text is, character by character, is left to std.
#[verifier::external_body]
fn debug_list(items: &Vec<String>) -> (r: String)
    ensures
        r@ == debug_list_text(items.deep_view()),
{
    format!("{:?}", items)
}

/// The prefix of the resource part of an assumed-role session ARN.
pub open spec fn assumed_role_prefix() -> Seq<char> {
    "assumed-role/"@
}

/// The prefix of the resource part of an IAM role ARN.
pub open spec fn iam_role_prefix() -> Seq<char> {
    "role/"@
}

/// The IAM role that an ARN names, or why none can be read from it.
///
/// The ARN is split at `:`; with fewer than six pieces it is invalid. The
/// sixth piece is the resource. `assumed-role/<role>/<session>` gives the
/// first `/`-separated piece after the prefix; `role/<path>/<role>` gives
/// the last one. Any other resource is unsupported.
pub open spec fn role_name_of(arn: Seq<char>) -> Result<Seq<char>, Seq<char>> {
    let parts = split_on(arn, ':');
    if parts.len() < 6 {
        Err("invalid ARN: '"@ + arn + "'"@)
    } else {
        let resource = parts[5];
        if has_prefix(resource, assumed_role_prefix()) {
            Ok(split_on(resource.skip(assumed_role_prefix().len() as int), '/')[0])
        } else if has_prefix(resource, iam_role_prefix()) {
            Ok(split_on(resource.skip(iam_role_prefix().len() as int), '/').last())
        } else {
            Err("unsupported ARN resource type: '"@ + resource + "'"@)
        }
    }
}

/// Whether the identity `account`/`arn` may log in as `user` under the
/// allowed accounts and the role mapping, and if not, why.
///
/// Checked in order: the account must be allowed; a role must be read from
/// the ARN; the role must have a mapping; the user must be among the users
/// mapped to it.
pub open spec fn identity_verdict(
    user: Seq<char>,
    account: Seq<char>,
    arn: Seq<char>,
    allowed_accounts: Seq<Seq<char>>,
    mapping: Map<Seq<char>, Seq<Seq<char>>>,
) -> Result<(), Seq<char>> {
    if !allowed_accounts.contains(account) {
        Err("account '"@ + account + "' not in allowed_account_ids"@)
    } else {
        match role_name_of(arn) {
            Err(e) => Err(e),
            Ok(role) => {
                if !mapping.contains_key(role) {
                    Err("role '"@ + role + "' has no mapping in config"@)
                } else if !mapping[role].contains(user) {
                    Err(
                        "role '"@ + role + "' not authorized for pg user '"@ + user + "' (allowed: "@
                            + debug_list_text(mapping[role]) + ")"@,
                    )
                } else {
                    Ok(())
                }
            },
        }
    }
}

/// `identity_verdict` for an identity under a configuration.
pub open spec fn verdict_under(user: Seq<char>, identity: CallerIdentity, config: Config) -> Result<
    (),
    Seq<char>,
> {
    identity_verdict(
        user,
        identity.account@,
        identity.arn@,
        config.aws.allowed_account_ids.deep_view(),
        config.role_mapping@,
    )
}

/// A unit result with its message taken as characters.
pub open spec fn unit_result_view(r: Result<(), String>) -> Result<(), Seq<char>> {
    match r {
        Ok(_) => Ok(()),
        Err(m) => Err(m@),
    }
}

/// A string result with both sides taken as characters.
pub open spec fn string_result_view(r: Result<String, String>) -> Result<Seq<char>, Seq<char>> {
    match r {
        Ok(s) => Ok(s@),
        Err(m) => Err(m@),
    }
}

/// The ARN whose `:`-separated pieces are `p0` to `p4` and then `resource`.
pub open spec fn arn_from_parts(
    p0: Seq<char>,
    p1: Seq<char>,
    p2: Seq<char>,
    p3: Seq<char>,
    p4: Seq<char>,
    resource: Seq<char>,
) -> Seq<char> {
    p0.push(':') + (p1.push(':') + (p2.push(':') + (p3.push(':') + (p4.push(':') + resource))))
}

/// Splitting an ARN built from six colon-free parts gives back those parts.
pub proof fn lemma_arn_parts(
    p0: Seq<char>,
    p1: Seq<char>,
    p2: Seq<char>,
    p3: Seq<char>,
    p4: Seq<char>,
    resource: Seq<char>,
)
    requires
        !p0.contains(':'),
        !p1.contains(':'),
        !p2.contains(':'),
        !p3.contains(':'),
        !p4.contains(':'),
        !resource.contains(':'),
    ensures
        split_on(arn_from_parts(p0, p1, p2, p3, p4, resource), ':') == seq![p0, p1, p2, p3, p4, resource],
{
    let s4 = p4.push(':') + resource;
    let s3 = p3.push(':') + s4;
    let s2 = p2.push(':') + s3;
    let s1 = p1.push(':') + s2;
    lemma_split_on_single(resource, ':');
    lemma_split_on_single(p4, ':');
    lemma_split_on_single(p3, ':');
    lemma_split_on_single(p2, ':');
    lemma_split_on_single(p1, ':');
    lemma_split_on_single(p0, ':');
    lemma_split_on_concat(p4, resource, ':');
    lemma_split_on_concat(p3, s4, ':');
    lemma_split_on_concat(p2, s3, ':');
    lemma_split_on_concat(p1, s2, ':');
    lemma_split_on_concat(p0, s1, ':');
    assert(split_on(arn_from_parts(p0, p1, p2, p3, p4, resource), ':') =~= seq![p0, p1, p2, p3, p4, resource]);
}

/// A role name read from an ARN never holds `/` or `:`.
pub proof fn law_role_name_is_one_segment(arn: Seq<char>)
    ensures
        role_name_of(arn) matches Ok(role) ==> !role.contains('/') && !role.contains(':'),
{
    lemma_split_on_basics(arn, ':');
    let parts = split_on(arn, ':');
    if parts.len() >= 6 {
        let resource = parts[5];
        let rest = if has_prefix(resource, assumed_role_prefix()) {
            resource.skip(assumed_role_prefix().len() as int)
        } else {
            resource.skip(iam_role_prefix().len() as int)
        };
        lemma_split_on_basics(rest, '/');
        if role_name_of(arn) is Ok {
            let pieces = split_on(rest, '/');
            let k = if has_prefix(resource, assumed_role_prefix()) { 0 } else { pieces.len() - 1 };
            let role = pieces[k];
            assert(role_name_of(arn) == Ok::<Seq<char>, Seq<char>>(role));
            assert(!role.contains('/')) by {
                if role.contains('/') {
                    let w = choose|w: int| 0 <= w < role.len() && role[w] == '/';
                    assert(pieces[k][w] != '/');
                }
            }
            assert(!role.contains(':')) by {
                if role.contains(':') {
                    let w = choose|w: int| 0 <= w < role.len() && role[w] == ':';
                    assert(rest.contains(pieces[k][w]));
                    let v = choose|v: int| 0 <= v < rest.len() && rest[v] == ':';
                    let off = if has_prefix(resource, assumed_role_prefix()) {
                        assumed_role_prefix().len() as int
                    } else {
                        iam_role_prefix().len() as int
                    };
                    assert(resource[v + off] == ':');
                    assert(parts[5][v + off] != ':');
                }
            }
        }
    }
}

/// The role of an assumed-role session ARN is read back exactly: for colon-free
/// leading parts, a role free of `/` and `:` and a colon-free session name,
/// `<p0>:<p1>:<p2>:<p3>:<p4>:assumed-role/<role>/<session>` names `role`.
pub proof fn law_assumed_role_arn_names_role(
    p0: Seq<char>,
    p1: Seq<char>,
    p2: Seq<char>,
    p3: Seq<char>,
    p4: Seq<char>,
    role: Seq<char>,
    session: Seq<char>,
)
    requires
        !p0.contains(':'),
        !p1.contains(':'),
        !p2.contains(':'),
        !p3.contains(':'),
        !p4.contains(':'),
        !role.contains('/'),
        !role.contains(':'),
        !session.contains(':'),
    ensures
        role_name_of(arn_from_parts(p0, p1, p2, p3, p4, assumed_role_prefix() + role.push('/') + session))
            == Ok::<Seq<char>, Seq<char>>(role),
{
    reveal_strlit("assumed-role/");
    let resource = assumed_role_prefix() + role.push('/') + session;
    assert(!resource.contains(':')) by {
        if resource.contains(':') {
            let w = choose|w: int| 0 <= w < resource.len() && resource[w] == ':';
            let n = assumed_role_prefix().len() as int;
            if w < n {
            } else if w < n + role.len() {
                assert(role[w - n] == ':');
            } else if w == n + role.len() {
            } else {
                assert(session[w - n - role.len() - 1] == ':');
            }
        }
    }
    lemma_arn_parts(p0, p1, p2, p3, p4, resource);
    assert(resource.take(assumed_role_prefix().len() as int) =~= assumed_role_prefix());
    assert(resource.skip(assumed_role_prefix().len() as int) =~= role.push('/') + session);
    lemma_split_on_concat(role, session, '/');
    lemma_split_on_single(role, '/');
}

/// The role of an IAM role ARN is read back exactly: for colon-free leading
/// parts, a colon-free path that is empty or ends in `/`, and a role free
/// of `/` and `:`, `<p0>:<p1>:<p2>:<p3>:<p4>:role/<path><role>` names `role`.
pub proof fn law_iam_role_arn_names_role(
    p0: Seq<char>,
    p1: Seq<char>,
    p2: Seq<char>,
    p3: Seq<char>,
    p4: Seq<char>,
    path: Seq<char>,
    role: Seq<char>,
)
    requires
        !p0.contains(':'),
        !p1.contains(':'),
        !p2.contains(':'),
        !p3.contains(':'),
        !p4.contains(':'),
        !path.contains(':'),
        path.len() == 0 || path.last() == '/',
        !role.contains('/'),
        !role.contains(':'),
    ensures
        role_name_of(arn_from_parts(p0, p1, p2, p3, p4, iam_role_prefix() + path + role))
            == Ok::<Seq<char>, Seq<char>>(role),
{
    reveal_strlit("role/");
    reveal_strlit("assumed-role/");
    let resource = iam_role_prefix() + path + role;
    let n = iam_role_prefix().len() as int;
    assert(!resource.contains(':')) by {
        if resource.contains(':') {
            let w = choose|w: int| 0 <= w < resource.len() && resource[w] == ':';
            if w < n {
            } else if w < n + path.len() {
                assert(path[w - n] == ':');
            } else {
                assert(role[w - n - path.len()] == ':');
            }
        }
    }
    lemma_arn_parts(p0, p1, p2, p3, p4, resource);
    assert(!has_prefix(resource, assumed_role_prefix())) by {
        if has_prefix(resource, assumed_role_prefix()) {
            assert(resource.take(assumed_role_prefix().len() as int)[0] == assumed_role_prefix()[0]);
            assert(resource[0] == iam_role_prefix()[0]);
        }
    }
    assert(resource.take(n) =~= iam_role_prefix());
    assert(resource.skip(n) =~= path + role);
    lemma_split_on_single(role, '/');
    if path.len() == 0 {
        assert(path + role =~= role);
    } else {
        let q = path.drop_last();
        assert(path + role =~= q.push('/') + role);
        lemma_split_on_concat(q, role, '/');
    }
}

/// Logging in is allowed exactly when the account is allowed, the ARN
/// names a role, the role has a mapping, and the user is mapped to it.
pub proof fn law_login_allowed_iff_authorized(
    user: Seq<char>,
    account: Seq<char>,
    arn: Seq<char>,
    allowed_accounts: Seq<Seq<char>>,
    mapping: Map<Seq<char>, Seq<Seq<char>>>,
)
    ensures
        identity_verdict(user, account, arn, allowed_accounts, mapping) is Ok <==> {
            &&& allowed_accounts.contains(account)
            &&& role_name_of(arn) is Ok
            &&& mapping.contains_key(role_name_of(arn)->Ok_0)
            &&& mapping[role_name_of(arn)->Ok_0].contains(user)
        },
{
}

/// An account outside the allow-list is refused for that reason alone,
/// whatever the ARN, the mapping and the user.
pub proof fn law_unknown_account_refused_first(
    user: Seq<char>,
    account: Seq<char>,
    arn: Seq<char>,
    allowed_accounts: Seq<Seq<char>>,
    mapping: Map<Seq<char>, Seq<Seq<char>>>,
)
    requires
        !allowed_accounts.contains(account),
    ensures
        identity_verdict(user, account, arn, allowed_accounts, mapping) == Err::<(), Seq<char>>(
            "account '"@ + account + "' not in allowed_account_ids"@,
        ),
{
}

/// Reads the IAM role name from an ARN (see `role_name_of`).
pub fn extract_role_name(arn: &str) -> (r: Result<String, String>)
    ensures
        string_result_view(r) == role_name_of(arn@),
{
    let parts = split_char(arn, ':');
    if parts.len() < 6 {
        let mut m = "invalid ARN: '".to_owned();
        m.append(arn);
        m.append("'");
        return Err(m);
    }
    let resource = parts[5].as_str();
    assert(resource@ == split_on(arn@, ':')[5]);
    if let Some(rest) = strip_prefix(resource, "assumed-role/") {
        let pieces = split_char(rest, '/');
        proof {
            lemma_split_on_basics(rest@, '/');
        }
        return Ok(pieces[0].clone());
    }
    if let Some(rest) = strip_prefix(resource, "role/") {
        let pieces = split_char(rest, '/');
        proof {
            lemma_split_on_basics(rest@, '/');
        }
        return Ok(pieces[pieces.len() - 1].clone());
    }
    let mut m = "unsupported ARN resource type: '".to_owned();
    m.append(resource);
    m.append("'");
    Err(m)
}

/// Decides whether `identity` may log in as the database user
/// `pam_username` under `config` (see `identity_verdict`).
pub fn validate_identity(pam_username: &str, identity: &CallerIdentity, config: &Config) -> (r:
    Result<(), String>)
    ensures
        unit_result_view(r) == verdict_under(pam_username@, *identity, *config),
{
    if !list_contains(&config.aws.allowed_account_ids, identity.account.as_str()) {
        let mut m = "account '".to_owned();
        m.append(identity.account.as_str());
        m.append("' not in allowed_account_ids");
        return Err(m);
    }
    let role_name = match extract_role_name(identity.arn.as_str()) {
        Ok(role) => role,
        Err(e) => return Err(e),
    };
    let allowed_users = match config.role_mapping.get(role_name.as_str()) {
        Some(users) => users,
        None => {
            let mut m = "role '".to_owned();
            m.append(role_name.as_str());
            m.append("' has no mapping in config");
            return Err(m);
        },
    };
    if !list_contains(allowed_users, pam_username) {
        let mut m = "role '".to_owned();
        m.append(role_name.as_str());
        m.append("' not authorized for pg user '");
        m.append(pam_username);
        m.append("' (allowed: ");
        let listed = debug_list(allowed_users);
        m.append(listed.as_str());
        m.append(")");
        return Err(m);
    }
    Ok(())
}

} // verus!
