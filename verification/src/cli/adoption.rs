//! Adoption: the record `init` keeps of an application it attached, how a
//! confirmation answer reads, and where a framework's dev server listens.
use vstd::prelude::*;
use crate::text::{
    owned, cat, str_eq, chars_of, string_from_chars, slice_chars, trim, trim_seq, to_lower, lower_seq,
    lead_ws, trim_start_seq,
};
use crate::dsl::parser::{all_digits, digits_value, parse_unsigned_exec};
use super::{CliError, error};
use super::control::{extract_quoted_field, quoted_field_of, opt_view};

verus! {

#[derive(Debug, Clone, Copy, PartialEq, Eq, Structural)]
pub enum InitMode {
    Embedded,
    Standalone,
}

impl InitMode {
    pub fn as_str(&self) -> (r: &'static str)
        ensures
            r@ == match *self {
                InitMode::Embedded => "embedded"@,
                InitMode::Standalone => "standalone"@,
            },
    {
        match self {
            InitMode::Embedded => "embedded",
            InitMode::Standalone => "standalone",
        }
    }
}

/// The flags of `init`; `root` is the application directory's path.
#[derive(Debug, Clone, Default, PartialEq, Eq)]
pub struct InitOptions {
    pub dry_run: bool,
    pub json: bool,
    pub yes: bool,
    pub mode: Option<InitMode>,
    pub root: Option<String>,
}

/// What the adoption record says of an attached application.
#[derive(Debug, Clone, PartialEq, Eq)]
pub struct AdoptionState {
    pub application: String,
    pub mode: String,
    pub authority: String,
    pub upstream: Option<String>,
    pub routes: usize,
    pub framework: String,
    pub run_command: Option<String>,
}

/// The leading decimal digits of `s`.
pub open spec fn leading_digits(s: Seq<char>) -> Seq<char>
    decreases s.len(),
{
    if s.len() > 0 && '0' <= s[0] && s[0] <= '9' {
        seq![s[0]] + leading_digits(s.drop_first())
    } else {
        Seq::empty()
    }
}

/// The number after `"key":` in `source`: its leading digits, when there
/// are some and they fit.
pub open spec fn json_number_of(source: Seq<char>, key: Seq<char>) -> Option<usize> {
    let pat = "\""@ + key + "\":"@;
    match crate::text::find_from(source, pat, 0) {
        None => None,
        Some(i) => {
            let d = leading_digits(trim_start_seq(source.skip(i + pat.len())));
            if d.len() > 0 && digits_value(d) <= usize::MAX {
                Some(digits_value(d) as usize)
            } else {
                None
            }
        },
    }
}

proof fn lemma_leading_digits(s: Seq<char>, k: int)
    requires
        0 <= k <= s.len(),
        forall|j: int| 0 <= j < k ==> '0' <= #[trigger] s[j] && s[j] <= '9',
        k == s.len() || !('0' <= s[k] && s[k] <= '9'),
    ensures
        leading_digits(s) == s.take(k),
    decreases k,
{
    if k > 0 {
        assert forall|j: int| 0 <= j < k - 1 implies '0' <= #[trigger] s.drop_first()[j] && s.drop_first()[j] <= '9' by {
            assert(s.drop_first()[j] == s[j + 1]);
        }
        if k - 1 < s.drop_first().len() {
            assert(s.drop_first()[k - 1] == s[k]);
        }
        lemma_leading_digits(s.drop_first(), k - 1);
        assert(seq![s[0]] + s.drop_first().take(k - 1) =~= s.take(k));
    } else {
        assert(s.take(0) =~= Seq::<char>::empty());
    }
}

fn json_number(source: &str, key: &str) -> (r: Option<usize>)
    ensures
        r == json_number_of(source@, key@),
{
    let v = chars_of(source);
    let mut p = owned("\"");
    p.append(key);
    p.append("\":");
    let pat = chars_of(p.as_str());
    proof {
        reveal_strlit("\":");
        crate::text::lemma_find_from(v@, pat@, 0);
    }
    match crate::text::find_seq(v.as_slice(), pat.as_slice(), 0) {
        None => None,
        Some(i) => {
            let vl = v.len();
            let pl = pat.len();
            assert(i + pl <= vl);
            let after = slice_chars(v.as_slice(), i + pl, vl);
            let k = crate::text::lead_ws_exec(after.as_slice());
            proof {
                crate::text::lemma_lead_ws_bound(after@);
            }
            let rest = slice_chars(after.as_slice(), k, after.len());
            assert(rest@ =~= trim_start_seq(source@.skip(i + pat@.len())));
            let mut j: usize = 0;
            while j < rest.len() && '0' <= rest[j] && rest[j] <= '9'
                invariant
                    j <= rest@.len(),
                    forall|t: int| 0 <= t < j ==> '0' <= #[trigger] rest@[t] && rest@[t] <= '9',
                decreases rest@.len() - j,
            {
                j = j + 1;
            }
            proof {
                lemma_leading_digits(rest@, j as int);
            }
            if j == 0 {
                return None;
            }
            let digits = slice_chars(rest.as_slice(), 0, j);
            let ds = string_from_chars(digits.as_slice());
            proof {
                assert(digits@ =~= rest@.take(j as int));
                assert(all_digits(digits@));
                assert(crate::dsl::parser::parse_unsigned(ds@) == Some(digits_value(digits@)));
            }
            match parse_unsigned_exec(ds.as_str(), usize::MAX as u64) {
                Some(n) => Some(n as usize),
                None => None,
            }
        },
    }
}

pub open spec fn or_default(o: Option<Seq<char>>, d: Seq<char>) -> Seq<char> {
    match o {
        Some(s) => s,
        None => d,
    }
}

pub open spec fn non_empty(o: Option<Seq<char>>) -> Option<Seq<char>> {
    match o {
        Some(s) => if s.len() > 0 {
            Some(s)
        } else {
            None
        },
        None => None,
    }
}

/// What an adoption record says, field by field, with the defaults an
/// absent field takes.
pub open spec fn adoption_of(s: AdoptionState, source: Seq<char>) -> bool {
    &&& s.application@ == or_default(quoted_field_of(source, "application"@), ""@)
    &&& s.mode@ == or_default(quoted_field_of(source, "mode"@), "standalone"@)
    &&& s.authority@ == or_default(quoted_field_of(source, "authority"@), "configured"@)
    &&& opt_view(s.upstream) == non_empty(quoted_field_of(source, "upstream"@))
    &&& s.routes == match json_number_of(source, "routes"@) {
        Some(n) => n,
        None => 0,
    }
    &&& s.framework@ == or_default(quoted_field_of(source, "framework"@), ""@)
    &&& opt_view(s.run_command) == non_empty(quoted_field_of(source, "run_command"@))
}

fn field_or(source: &str, key: &str, default: &str) -> (r: String)
    ensures
        r@ == or_default(quoted_field_of(source@, key@), default@),
{
    match extract_quoted_field(source, key) {
        Some(v) => v,
        None => owned(default),
    }
}

fn field_non_empty(source: &str, key: &str) -> (r: Option<String>)
    ensures
        opt_view(r) == non_empty(quoted_field_of(source@, key@)),
{
    match extract_quoted_field(source, key) {
        Some(v) => {
            if v.as_str().unicode_len() > 0 {
                Some(v)
            } else {
                None
            }
        },
        None => None,
    }
}

/// Reads the adoption record's text.
pub fn adoption_from_source(source: &str) -> (r: AdoptionState)
    ensures
        adoption_of(r, source@),
{
    AdoptionState {
        application: field_or(source, "application", ""),
        mode: field_or(source, "mode", "standalone"),
        authority: field_or(source, "authority", "configured"),
        upstream: field_non_empty(source, "upstream"),
        routes: match json_number(source, "routes") {
            Some(n) => n,
            None => 0,
        },
        framework: field_or(source, "framework", ""),
        run_command: field_non_empty(source, "run_command"),
    }
}

/// The upstream an adoption record names, if it names one.
pub fn adoption_upstream(source: &str) -> (r: Option<String>)
    ensures
        opt_view(r) == non_empty(quoted_field_of(source@, "upstream"@)),
{
    field_non_empty(source, "upstream")
}

/// Where a framework's development server conventionally listens.
pub open spec fn dev_port(framework: Seq<char>) -> u16 {
    if framework == "FastAPI"@ || framework == "Starlette"@ || framework == "Litestar"@ || framework
        == "Django"@ {
        8000
    } else if framework == "React"@ || framework == "React Router"@ || framework == "Next.js"@ || framework
        == "Express"@ || framework == "NestJS"@ {
        3000
    } else {
        5173
    }
}

pub fn conventional_dev_upstream(framework: &str) -> (r: String)
    ensures
        r@ == "http://127.0.0.1:"@ + crate::text::decimal(dev_port(framework@) as nat),
{
    let port: u64 = if str_eq(framework, "FastAPI") || str_eq(framework, "Starlette") || str_eq(framework, "Litestar")
        || str_eq(framework, "Django") {
        8000
    } else if str_eq(framework, "React") || str_eq(framework, "React Router") || str_eq(framework, "Next.js")
        || str_eq(framework, "Express") || str_eq(framework, "NestJS") {
        3000
    } else {
        5173
    };
    let digits = crate::text::u64_decimal(port);
    cat("http://127.0.0.1:", digits.as_str())
}

/// The answer to the adoption prompt: only an explicit `y` or `yes` (in any
/// case, around whitespace) agrees; where nothing could be read (`None`),
/// confirmation is impossible and adoption is refused.
pub fn confirm_adoption(line: Option<&str>) -> (r: Result<bool, CliError>)
    ensures
        match line {
            None => r matches Err(e) && e.message@
                == "AuthBoundry cannot obtain interactive confirmation.\nRefusing to modify the application.\nUse:\n  authboundry init --yes"@,
            Some(l) => r == Ok::<bool, CliError>(
                lower_seq(trim_seq(l@)) == "y"@ || lower_seq(trim_seq(l@)) == "yes"@,
            ),
        },
{
    match line {
        None => Err(
            error(
                "AuthBoundry cannot obtain interactive confirmation.\nRefusing to modify the application.\nUse:\n  authboundry init --yes",
            ),
        ),
        Some(l) => {
            let t = trim(l);
            let a = to_lower(t.as_str());
            Ok(str_eq(a.as_str(), "y") || str_eq(a.as_str(), "yes"))
        },
    }
}

/// The options of `init` as plain values.
pub struct InitOptionsView {
    pub dry_run: bool,
    pub json: bool,
    pub yes: bool,
    pub mode: Option<InitMode>,
    pub root: Option<Seq<char>>,
}

impl View for InitOptions {
    type V = InitOptionsView;

    open spec fn view(&self) -> InitOptionsView {
        InitOptionsView {
            dry_run: self.dry_run,
            json: self.json,
            yes: self.yes,
            mode: self.mode,
            root: opt_view(self.root),
        }
    }
}

/// The options the flags of `init` from position `i` on give, starting
/// from `o`: a later flag overrides an earlier one, and a bare word names
/// the root.
pub open spec fn init_options_from(args: Seq<Seq<char>>, i: int, o: InitOptionsView) -> Result<
    InitOptionsView,
    Seq<char>,
>
    decreases args.len() - i,
{
    if i < 0 || i >= args.len() {
        Ok(o)
    } else {
        let a = args[i];
        if a == "--dry-run"@ {
            init_options_from(args, i + 1, InitOptionsView { dry_run: true, ..o })
        } else if a == "--json"@ {
            init_options_from(args, i + 1, InitOptionsView { json: true, ..o })
        } else if a == "--yes"@ {
            init_options_from(args, i + 1, InitOptionsView { yes: true, ..o })
        } else if a == "--standalone"@ {
            init_options_from(args, i + 1, InitOptionsView { mode: Some(InitMode::Standalone), ..o })
        } else if a == "--embedded"@ {
            init_options_from(args, i + 1, InitOptionsView { mode: Some(InitMode::Embedded), ..o })
        } else if a == "--root"@ {
            if i + 1 >= args.len() {
                Err("--root needs a value"@)
            } else {
                init_options_from(args, i + 2, InitOptionsView { root: Some(args[i + 1]), ..o })
            }
        } else if crate::text::is_prefix("-"@, a) {
            Err("unknown flag `"@ + a + "`"@)
        } else {
            init_options_from(args, i + 1, InitOptionsView { root: Some(a), ..o })
        }
    }
}

pub open spec fn no_init_options() -> InitOptionsView {
    InitOptionsView { dry_run: false, json: false, yes: false, mode: None, root: None }
}

/// Reads the flags of `init`.
pub fn parse_options(args: &[String]) -> (r: Result<InitOptions, CliError>)
    ensures
        match init_options_from(crate::text::views(args@), 0, no_init_options()) {
            Ok(o) => r matches Ok(x) && x@ == o,
            Err(m) => r matches Err(e) && e.message@ == m,
        },
{
    let ghost av = crate::text::views(args@);
    let mut o = InitOptions { dry_run: false, json: false, yes: false, mode: None, root: None };
    let mut i: usize = 0;
    while i < args.len()
        invariant
            i <= args@.len(),
            av == crate::text::views(args@),
            init_options_from(av, 0, no_init_options()) == init_options_from(av, i as int, o@),
        decreases args@.len() - i,
    {
        let a = args[i].as_str();
        assert(av[i as int] == a@);
        if str_eq(a, "--dry-run") {
            o.dry_run = true;
        } else if str_eq(a, "--json") {
            o.json = true;
        } else if str_eq(a, "--yes") {
            o.yes = true;
        } else if str_eq(a, "--standalone") {
            o.mode = Some(InitMode::Standalone);
        } else if str_eq(a, "--embedded") {
            o.mode = Some(InitMode::Embedded);
        } else if str_eq(a, "--root") {
            if i + 1 >= args.len() {
                return Err(error("--root needs a value"));
            }
            assert(av[i + 1] == args@[i + 1]@);
            o.root = Some(args[i + 1].clone());
            i = i + 1;
        } else if crate::text::starts_with(a, "-") {
            return Err(crate::cli::error_owned(crate::text::cat3("unknown flag `", a, "`")));
        } else {
            o.root = Some(owned(a));
        }
        i = i + 1;
    }
    Ok(o)
}

/// `s` without the slashes it ends with.
pub open spec fn trim_end_slashes(s: Seq<char>) -> Seq<char>
    decreases s.len(),
{
    if s.len() > 0 && s.last() == '/' {
        trim_end_slashes(s.drop_last())
    } else {
        s
    }
}

/// The paths where a visitor signs in or up, which stay public.
pub open spec fn public_entry(path: Seq<char>) -> bool {
    let p = trim_end_slashes(path);
    p == ""@ || p == "/login"@ || p == "/signin"@ || p == "/sign-in"@ || p == "/signup"@ || p
        == "/sign-up"@ || p == "/register"@
}

pub fn is_public_entry_path(path: &str) -> (r: bool)
    ensures
        r == public_entry(path@),
{
    let v = chars_of(path);
    let mut n: usize = v.len();
    assert(v@.take(n as int) =~= v@);
    while n > 0 && v[n - 1] == '/'
        invariant
            n <= v@.len(),
            trim_end_slashes(v@) == trim_end_slashes(v@.take(n as int)),
        decreases n,
    {
        assert(v@.take(n as int).drop_last() =~= v@.take(n - 1));
        n = n - 1;
    }
    let t = slice_chars(v.as_slice(), 0, n);
    assert(t@ =~= v@.take(n as int));
    let ts = string_from_chars(t.as_slice());
    let p = ts.as_str();
    str_eq(p, "") || str_eq(p, "/login") || str_eq(p, "/signin") || str_eq(p, "/sign-in") || str_eq(
        p,
        "/signup",
    ) || str_eq(p, "/sign-up") || str_eq(p, "/register")
}

/// `s` split at each occurrence of `pat` (`str::split`).
pub open spec fn split_on(s: Seq<char>, pat: Seq<char>) -> Seq<Seq<char>>
    decreases s.len(),
{
    if pat.len() == 0 {
        seq![s]
    } else {
        match crate::text::find_from(s, pat, 0) {
            Some(i) => {
                proof {
                    crate::text::lemma_find_from(s, pat, 0);
                }
                seq![s.take(i)] + split_on(s.skip(i + pat.len()), pat)
            },
            None => seq![s],
        }
    }
}

fn split_on_exec(s: &str, pat: &str) -> (r: Vec<String>)
    requires
        pat@.len() > 0,
    ensures
        crate::text::views(r@) == split_on(s@, pat@),
{
    let v = chars_of(s);
    let p = chars_of(pat);
    let mut pieces: Vec<String> = Vec::new();
    let mut from: usize = 0;
    assert(v@.skip(0) =~= v@);
    assert(crate::text::views(pieces@) =~= Seq::<Seq<char>>::empty());
    assert(crate::text::views(pieces@) + split_on(v@, p@) =~= split_on(v@, p@));
    loop
        invariant
            from <= v@.len(),
            p@ == pat@,
            p@.len() > 0,
            crate::text::views(pieces@) + split_on(v@.skip(from as int), p@) == split_on(s@, pat@),
            v@ == s@,
        decreases v@.len() - from,
    {
        let rest = slice_chars(v.as_slice(), from, v.len());
        assert(rest@ =~= v@.skip(from as int));
        proof {
            crate::text::lemma_find_from(rest@, p@, 0);
        }
        match crate::text::find_seq(rest.as_slice(), p.as_slice(), 0) {
            Some(i) => {
                let head = slice_chars(rest.as_slice(), 0, i);
                assert(head@ =~= rest@.take(i as int));
                let piece = string_from_chars(head.as_slice());
                let ghost before = pieces@;
                pieces.push(piece);
                let pl = p.len();
                let rl = rest.len();
                assert(i + pl <= rl);
                proof {
                    assert(rest@.skip(i + p@.len()) =~= v@.skip(from + i + p@.len()));
                    assert(crate::text::views(pieces@) =~= crate::text::views(before).push(piece@));
                    assert(crate::text::views(pieces@) + split_on(v@.skip(from + i + pl), p@) =~= crate::text::views(before) + (seq![rest@.take(i as int)] + split_on(rest@.skip(i + p@.len()), p@)));
                }
                from = from + i + pl;
            },
            None => {
                let piece = string_from_chars(rest.as_slice());
                let ghost before = pieces@;
                pieces.push(piece);
                proof {
                    assert(crate::text::views(pieces@) =~= crate::text::views(before).push(piece@));
                    assert(crate::text::views(pieces@) =~= crate::text::views(before) + seq![rest@]);
                }
                return pieces;
            },
        }
    }
}

/// The key each development account record starts with.
pub const ACCOUNT_KEY: &'static str = "{\"username\"";

/// The account flag a development account record reads as: username,
/// password and claims, at the file's tenant; `None` without a username or
/// a password.
pub open spec fn record_raw(record: Seq<char>, tenant: Seq<char>) -> Option<Seq<char>> {
    let rec = ACCOUNT_KEY@ + record;
    match quoted_field_of(rec, "username"@) {
        None => None,
        Some(u) => match quoted_field_of(rec, "password"@) {
            None => None,
            Some(p) => Some(
                u + ":"@ + p + ":"@ + or_default(quoted_field_of(rec, "claims"@), ""@) + "@"@ + tenant,
            ),
        },
    }
}

/// The account flags of the records that read as accounts, in order.
pub open spec fn dev_account_raws(records: Seq<Seq<char>>, tenant: Seq<char>) -> Seq<Seq<char>>
    decreases records.len(),
{
    if records.len() == 0 {
        Seq::empty()
    } else {
        let rest = dev_account_raws(records.drop_last(), tenant);
        match record_raw(records.last(), tenant) {
            Some(raw) => if crate::cli::serve::account_error(raw, tenant) is None {
                rest.push(raw)
            } else {
                rest
            },
            None => rest,
        }
    }
}

/// The tenant of the development accounts file.
pub open spec fn dev_tenant(source: Seq<char>) -> Seq<char> {
    or_default(quoted_field_of(source, "tenant"@), "development"@)
}

/// The development accounts the file `source` seeds: each record after the
/// first `{"username"` that reads as an account.
pub fn development_accounts_from_source(source: &str) -> (r: Vec<crate::cli::serve::Account>)
    ensures
        ({
            let raws = dev_account_raws(split_on(source@, ACCOUNT_KEY@).drop_first(), dev_tenant(source@));
            &&& r@.len() == raws.len()
            &&& forall|i: int|
                0 <= i < raws.len() ==> crate::cli::serve::account_read(
                    raws[i],
                    dev_tenant(source@),
                    #[trigger] r@[i],
                )
        }),
{
    let tenant = field_or(source, "tenant", "development");
    proof {
        reveal_strlit("{\"username\"");
    }
    let pieces = split_on_exec(source, ACCOUNT_KEY);
    let ghost records = split_on(source@, ACCOUNT_KEY@).drop_first();
    let mut out: Vec<crate::cli::serve::Account> = Vec::new();
    let mut i: usize = 1;
    while i < pieces.len()
        invariant
            1 <= i <= pieces@.len() || pieces@.len() == 0,
            crate::text::views(pieces@) == split_on(source@, ACCOUNT_KEY@),
            records == split_on(source@, ACCOUNT_KEY@).drop_first(),
            tenant@ == dev_tenant(source@),
            ({
                let raws = dev_account_raws(records.take(i - 1), tenant@);
                &&& out@.len() == raws.len()
                &&& forall|j: int|
                    0 <= j < raws.len() ==> crate::cli::serve::account_read(raws[j], tenant@, #[trigger] out@[j])
            }),
        decreases pieces@.len() - i,
    {
        let mut record = owned(ACCOUNT_KEY);
        record.append(pieces[i].as_str());
        proof {
            let t = records.take(i as int);
            assert(t.drop_last() =~= records.take(i - 1));
            assert(t.last() == records[i - 1]);
            assert(records[i - 1] == pieces@[i as int]@);
        }
        let user = extract_quoted_field(record.as_str(), "username");
        let pass = extract_quoted_field(record.as_str(), "password");
        match (user, pass) {
            (Some(u), Some(p)) => {
                let claims = field_or(record.as_str(), "claims", "");
                let mut raw = u;
                raw.append(":");
                raw.append(p.as_str());
                raw.append(":");
                raw.append(claims.as_str());
                raw.append("@");
                raw.append(tenant.as_str());
                match crate::cli::serve::Account::parse(raw.as_str(), tenant.as_str()) {
                    Ok(a) => {
                        let ghost before = out@;
                        out.push(a);
                        proof {
                            let raws = dev_account_raws(records.take(i as int), tenant@);
                            assert forall|j: int|
                                0 <= j < raws.len() implies crate::cli::serve::account_read(raws[j], tenant@, #[trigger] out@[j]) by {
                                if j < before.len() {
                                    assert(out@[j] == before[j]);
                                }
                            }
                        }
                    },
                    Err(_) => {},
                }
            },
            _ => {},
        }
        i = i + 1;
    }
    proof {
        if pieces@.len() > 0 {
            assert(records.take(i - 1) =~= records);
        } else {
            assert(records.len() == 0);
        }
    }
    out
}

} // verus!
