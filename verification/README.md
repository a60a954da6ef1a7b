# pam_aws_sts

A PAM module that authenticates PostgreSQL users with AWS STS temporary
credentials: the password is a JSON set of STS credentials, STS
`GetCallerIdentity` says whose they are, and the configuration decides
whether that IAM role may log in as the requested database user.

## Layout

- `src/` — the verified library (Verus):
  - `config.rs` — configuration types, the role-to-users mapping, the checks
    a parsed configuration must pass, the STS endpoint.
  - `credentials.rs` — STS credentials, their checks, the expiry check
    against a grace period (timestamps read with chrono), wiping secrets.
  - `sts.rs` — the STS client settings, the reply status check, reading the
    identity out of the XML reply (quick-xml).
  - `signing.rs` — SigV4 signing of the STS request (aws-sigv4, http), with
    the refusal of endpoints that do not use TLS.
  - `clock.rs` — the system clock read as plain numbers.
  - `validation.rs` — reading the role from an ARN and deciding whether an
    identity may log in as a user.
  - `lib.rs` — the authentication decisions before and after the STS call.
  - `logging.rs`, `pam.rs` — log level and facility names, the module
    arguments and the PAM status codes.
  - `text.rs` — splitting, prefixes and decimal rendering.
- `app/` — the module itself: reading the configuration file, TOML and JSON
  parsing, the HTTP exchange with STS, syslog, and the PAM entry points.
- `tests/` — tests of the library.
