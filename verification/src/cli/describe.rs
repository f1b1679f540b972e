//! What the contract commands report: the password policy in force, as a
//! table or as JSON with the fingerprints it was read at, and the connectors
//! the contract's providers resolve to.
use vstd::prelude::*;
use crate::dsl::model::{AuthConfig, PasswordPolicy, config_fingerprint, password_text, fnv1a};
use crate::text::{owned, cat, decimal, bool_text, bool_str, u64_decimal, utf8, hex_n};
use crate::providers::connector::{
    ConnectorMetadata, MetadataView, connector_kind_name, connector_status_name, error_text,
};
use crate::providers::registry::{ConnectorRegistry, assemble, connector_metadata, ids_of, override_error};
use crate::providers::registry::ConnectorView;
use crate::sorting::{isort_by, le_of, views_of};
use super::{CliError, error_owned};

verus! {

pub open spec fn required_text(b: bool) -> Seq<char> {
    if b {
        "Required"@
    } else {
        "Not required"@
    }
}

fn required(value: bool) -> (r: &'static str)
    ensures
        r@ == required_text(value),
{
    if value {
        "Required"
    } else {
        "Not required"
    }
}

pub open spec fn expiration_json(d: Option<u32>) -> Seq<char> {
    match d {
        Some(n) => decimal(n as nat),
        None => "null"@,
    }
}

pub open spec fn expiration_text(d: Option<u32>) -> Seq<char> {
    match d {
        Some(n) => decimal(n as nat) + " days"@,
        None => "Disabled"@,
    }
}

/// The policy as JSON, with the contract's fingerprint and the policy's own.
pub open spec fn policy_json(p: PasswordPolicy, contract_fingerprint: Seq<char>) -> Seq<char> {
    "{\"min_length\": "@ + decimal(p.min_length as nat) + ", \"max_length\": "@ + decimal(
        p.max_length as nat,
    ) + ", \"require_uppercase\": "@ + bool_text(p.require_uppercase)
        + ", \"require_lowercase\": "@ + bool_text(p.require_lowercase) + ", \"require_number\": "@
        + bool_text(p.require_number) + ", \"require_special_character\": "@ + bool_text(
        p.require_special_character,
    ) + ", \"expiration_days\": "@ + expiration_json(p.password_expiration_days)
        + ", \"history_count\": "@ + decimal(p.password_history_count as nat)
        + ", \"allow_password_change\": "@ + bool_text(p.allow_password_change)
        + ", \"allow_password_reset\": "@ + bool_text(p.allow_password_reset)
        + ", \"contract_fingerprint\": \""@ + contract_fingerprint + "\", \"policy_revision\": \""@
        + hex_n(fnv1a(utf8(password_text(p))) as nat, 16) + "\"}\n"@
}

/// The policy as a table.
pub open spec fn policy_table(p: PasswordPolicy) -> Seq<char> {
    "Password Policy\n  Minimum length       "@ + decimal(p.min_length as nat)
        + "\n  Maximum length       "@ + decimal(p.max_length as nat) + "\n  Uppercase            "@
        + required_text(p.require_uppercase) + "\n  Lowercase            "@ + required_text(
        p.require_lowercase,
    ) + "\n  Number               "@ + required_text(p.require_number)
        + "\n  Special character    "@ + required_text(p.require_special_character)
        + "\n  Password expiration  "@ + expiration_text(p.password_expiration_days)
        + "\n  Password history     "@ + decimal(p.password_history_count as nat)
        + " passwords\n"@
}

fn append_usize(out: &mut String, n: usize)
    ensures
        final(out)@ == old(out)@ + decimal(n as nat),
{
    let d = u64_decimal(n as u64);
    out.append(d.as_str());
}

fn policy_json_exec(p: &PasswordPolicy, contract_fingerprint: &str) -> (r: String)
    ensures
        r@ == policy_json(*p, contract_fingerprint@),
{
    let mut out = owned("{\"min_length\": ");
    append_usize(&mut out, p.min_length);
    out.append(", \"max_length\": ");
    append_usize(&mut out, p.max_length);
    out.append(", \"require_uppercase\": ");
    out.append(bool_str(p.require_uppercase));
    out.append(", \"require_lowercase\": ");
    out.append(bool_str(p.require_lowercase));
    out.append(", \"require_number\": ");
    out.append(bool_str(p.require_number));
    out.append(", \"require_special_character\": ");
    out.append(bool_str(p.require_special_character));
    out.append(", \"expiration_days\": ");
    match p.password_expiration_days {
        Some(d) => {
            let t = u64_decimal(d as u64);
            out.append(t.as_str());
        },
        None => out.append("null"),
    }
    out.append(", \"history_count\": ");
    append_usize(&mut out, p.password_history_count);
    out.append(", \"allow_password_change\": ");
    out.append(bool_str(p.allow_password_change));
    out.append(", \"allow_password_reset\": ");
    out.append(bool_str(p.allow_password_reset));
    out.append(", \"contract_fingerprint\": \"");
    out.append(contract_fingerprint);
    out.append("\", \"policy_revision\": \"");
    let revision = p.revision_fingerprint();
    out.append(revision.as_str());
    out.append("\"}\n");
    out
}

fn policy_table_exec(p: &PasswordPolicy) -> (r: String)
    ensures
        r@ == policy_table(*p),
{
    let mut out = owned("Password Policy\n  Minimum length       ");
    append_usize(&mut out, p.min_length);
    out.append("\n  Maximum length       ");
    append_usize(&mut out, p.max_length);
    out.append("\n  Uppercase            ");
    out.append(required(p.require_uppercase));
    out.append("\n  Lowercase            ");
    out.append(required(p.require_lowercase));
    out.append("\n  Number               ");
    out.append(required(p.require_number));
    out.append("\n  Special character    ");
    out.append(required(p.require_special_character));
    out.append("\n  Password expiration  ");
    match p.password_expiration_days {
        Some(d) => {
            let t = u64_decimal(d as u64);
            out.append(t.as_str());
            out.append(" days");
        },
        None => out.append("Disabled"),
    }
    out.append("\n  Password history     ");
    append_usize(&mut out, p.password_history_count);
    out.append(" passwords\n");
    out
}

/// What `password-policy` prints for a contract.
pub fn describe_password_policy(config: &AuthConfig, json: bool) -> (r: String)
    ensures
        json ==> r@ == policy_json(config.password_policy, config_fingerprint(config@)),
        !json ==> r@ == policy_table(config.password_policy),
{
    if json {
        let fingerprint = config.fingerprint();
        policy_json_exec(&config.password_policy, fingerprint.as_str())
    } else {
        policy_table_exec(&config.password_policy)
    }
}

/// `s` padded with spaces on the right to `width` characters.
pub open spec fn pad(s: Seq<char>, width: nat) -> Seq<char> {
    if s.len() < width {
        s + Seq::new((width - s.len()) as nat, |i: int| ' ')
    } else {
        s
    }
}

/// One provider line: id and kind in columns, then the status.
pub open spec fn provider_line(m: MetadataView) -> Seq<char> {
    pad(m.id, 12) + " "@ + pad(connector_kind_name(m.kind), 16) + " "@ + connector_status_name(
        m.status,
    ) + "\n"@
}

pub open spec fn provider_lines(ms: Seq<MetadataView>) -> Seq<char>
    decreases ms.len(),
{
    if ms.len() == 0 {
        Seq::empty()
    } else {
        provider_lines(ms.drop_last()) + provider_line(ms.last())
    }
}

pub(crate) fn append_padded(out: &mut String, s: &str, width: usize)
    ensures
        final(out)@ == old(out)@ + pad(s@, width as nat),
{
    let ghost start = out@;
    out.append(s);
    let n = s.unicode_len();
    let mut k: usize = n;
    while k < width
        invariant
            n == s@.len(),
            k >= n,
            k <= width || k == n,
            out@ == start + s@ + Seq::new((k - n) as nat, |i: int| ' '),
        decreases width - k,
    {
        let ghost before = out@;
        out.append(" ");
        proof {
            reveal_strlit(" ");
            assert(Seq::new((k + 1 - n) as nat, |i: int| ' ') =~= Seq::new((k - n) as nat, |i: int| ' ').push(' '));
            assert(out@ =~= start + s@ + Seq::new((k + 1 - n) as nat, |i: int| ' '));
        }
        k = k + 1;
    }
    proof {
        if n >= width {
            assert(k == n);
            assert(Seq::new((k - n) as nat, |i: int| ' ') =~= Seq::<char>::empty());
            assert(out@ =~= start + s@);
        } else {
            assert(k == width);
        }
    }
}

fn provider_line_exec(out: &mut String, m: &ConnectorMetadata)
    ensures
        final(out)@ == old(out)@ + provider_line(m@),
{
    let ghost start = out@;
    append_padded(out, m.id.as_str(), 12);
    out.append(" ");
    append_padded(out, m.kind.as_str(), 16);
    out.append(" ");
    out.append(m.status.as_str());
    out.append("\n");
    assert(out@ =~= start + provider_line(m@));
}

/// What `providers` prints for a contract: the registry's connectors, in
/// order, one per line; or why the registry cannot be built.
pub fn describe_providers(config: &AuthConfig) -> (r: Result<String, CliError>)
    ensures
        match assemble(config@.providers, Seq::empty(), config@.providers.len() as int) {
            Err(e) => r matches Err(x) && x.message@ == "connector registry: "@ + error_text(e),
            Ok(state) => r matches Ok(t) && t@ == provider_lines(
                isort_by(
                    state.0.map_values(|c: ConnectorView| connector_metadata(c)),
                    le_of::<ConnectorMetadata>(),
                ),
            ),
        },
{
    proof {
        assert(ids_of(Seq::<ConnectorView>::empty()) =~= Seq::<Seq<char>>::empty());
        assert(override_error(config@.providers, ids_of(Seq::<ConnectorView>::empty())) is None);
    }
    let registry = match ConnectorRegistry::from_config(config) {
        Ok(r) => r,
        Err(e) => {
            let m = e.message();
            return Err(error_owned(cat("connector registry: ", m.as_str())));
        },
    };
    let metadata = registry.metadata();
    let mut out = String::new();
    let mut i: usize = 0;
    while i < metadata.len()
        invariant
            i <= metadata@.len(),
            out@ == provider_lines(views_of(metadata@).take(i as int)),
        decreases metadata@.len() - i,
    {
        provider_line_exec(&mut out, &metadata[i]);
        proof {
            let t = views_of(metadata@).take(i + 1);
            assert(t.drop_last() =~= views_of(metadata@).take(i as int));
            assert(t.last() == metadata@[i as int]@);
        }
        i = i + 1;
    }
    assert(views_of(metadata@).take(i as int) =~= views_of(metadata@));
    Ok(out)
}

} // verus!
