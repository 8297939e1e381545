//! The trust policy of outgoing connections.

use vstd::prelude::*;

use crate::text::{
    ascii_lower, concat5, opt_str_view, opt_view, same, to_ascii_lower, trim, trimmed,
};

verus! {

/// The trust policy of outgoing connections.
#[derive(Debug)]
pub struct TlsSettings {
    /// A file of certificates to trust on top of the usual ones.
    pub ca_bundle: Option<String>,
    /// Certificates are not verified at all.
    pub insecure: bool,
}

/// A policy as a mathematical value.
pub ghost struct TlsView {
    pub ca_bundle: Option<Seq<char>>,
    pub insecure: bool,
}

impl View for TlsSettings {
    type V = TlsView;

    open spec fn view(&self) -> TlsView {
        TlsView { ca_bundle: opt_view(self.ca_bundle), insecure: self.insecure }
    }
}

impl Default for TlsSettings {
    fn default() -> (r: TlsSettings)
        ensures
            r@ == (TlsView { ca_bundle: None, insecure: false }),
    {
        TlsSettings { ca_bundle: None, insecure: false }
    }
}

/// The text switches something on.
pub open spec fn is_truthy(v: Seq<char>) -> bool {
    let s = ascii_lower(trimmed(v));
    s == "1"@ || s == "true"@ || s == "yes"@ || s == "on"@
}

/// Whether the text switches something on.
pub fn truthy(v: &str) -> (r: bool)
    ensures
        r == is_truthy(v@),
{
    let s = to_ascii_lower(trim(v));
    let s = s.as_str();
    same(s, "1") || same(s, "true") || same(s, "yes") || same(s, "on")
}

/// A value that counts: there, and not empty.
pub open spec fn counted(v: Option<Seq<char>>) -> Option<Seq<char>> {
    match v {
        Some(s) => if s.len() == 0 {
            None
        } else {
            Some(s)
        },
        None => None,
    }
}

/// The first value, if it counts, else the second, if that does.
pub open spec fn either(a: Option<Seq<char>>, b: Option<Seq<char>>) -> Option<Seq<char>> {
    if counted(a) is Some {
        counted(a)
    } else {
        counted(b)
    }
}

/// What the environment says.
pub open spec fn env_settings(
    bundle: Option<Seq<char>>,
    cert_file: Option<Seq<char>>,
    insecure: Option<Seq<char>>,
) -> TlsView {
    TlsView {
        ca_bundle: either(bundle, cert_file),
        insecure: match insecure {
            Some(v) => is_truthy(v),
            None => false,
        },
    }
}

fn count(v: Option<&str>) -> (r: Option<String>)
    ensures
        opt_view(r) == counted(opt_str_view(v)),
{
    match v {
        Some(s) => if s.is_empty() {
            None
        } else {
            Some(s.to_owned())
        },
        None => None,
    }
}

/// The policy that the environment asks for, by the values of `KNACK_CA_BUNDLE`,
/// `SSL_CERT_FILE` and `KNACK_INSECURE`. The first bundle wins; empty values are
/// ignored.
pub fn from_env(
    bundle: Option<&str>,
    cert_file: Option<&str>,
    insecure: Option<&str>,
) -> (r: TlsSettings)
    ensures
        r@ == env_settings(opt_str_view(bundle), opt_str_view(cert_file), opt_str_view(insecure)),
{
    let first = count(bundle);
    let ca_bundle = if first.is_some() {
        first
    } else {
        count(cert_file)
    };
    let insecure = match insecure {
        Some(v) => truthy(v),
        None => false,
    };
    TlsSettings { ca_bundle, insecure }
}

/// The policy that flags and environment ask for: what the flags say goes over what the
/// environment says, and nothing takes a switch back.
pub open spec fn asked_for(bundle_flag: Option<Seq<char>>, insecure_flag: bool, env: TlsView) -> TlsView {
    TlsView {
        ca_bundle: if bundle_flag is Some {
            bundle_flag
        } else {
            env.ca_bundle
        },
        insecure: insecure_flag || env.insecure,
    }
}

/// The policy of the process once it was settled: the first settling stays.
pub open spec fn settled_on(settled: Option<TlsView>, asked: TlsView) -> TlsView {
    match settled {
        Some(s) => s,
        None => asked,
    }
}

pub open spec fn opt_tls_view(o: Option<TlsSettings>) -> Option<TlsView> {
    match o {
        Some(s) => Some(s@),
        None => None,
    }
}

/// Settles the policy of the process. What was settled before stays.
pub fn init(
    settled: Option<TlsSettings>,
    ca_bundle_flag: Option<String>,
    insecure_flag: bool,
    env: TlsSettings,
) -> (r: TlsSettings)
    ensures
        r@ == settled_on(
            opt_tls_view(settled),
            asked_for(opt_view(ca_bundle_flag), insecure_flag, env@),
        ),
{
    match settled {
        Some(s) => s,
        None => TlsSettings {
            ca_bundle: if ca_bundle_flag.is_some() {
                ca_bundle_flag
            } else {
                env.ca_bundle
            },
            insecure: insecure_flag || env.insecure,
        },
    }
}

/// The policy in force: the one that was settled, else what the environment says.
pub open spec fn in_force(settled: Option<TlsView>, env: TlsView) -> TlsView {
    match settled {
        Some(s) => s,
        None => env,
    }
}

/// The policy in force.
pub fn settings(settled: Option<TlsSettings>, env: TlsSettings) -> (r: TlsSettings)
    ensures
        r@ == in_force(opt_tls_view(settled), env@),
{
    match settled {
        Some(s) => s,
        None => env,
    }
}

/// The first settling stays in force for the process, whatever is settled later and
/// whatever becomes of the environment; before it, what the environment says is in force.
pub proof fn law_first_settling_stays(first: TlsView, later: Seq<TlsView>, env: TlsView)
    ensures
        in_force(Some(settled_after(settled_on(None, first), later, later.len() as int)), env)
            == first,
        in_force(None, env) == env,
{
    lemma_settled_after(first, later, later.len() as int);
}

/// The policy after `n` further settlings.
pub open spec fn settled_after(now: TlsView, later: Seq<TlsView>, n: int) -> TlsView
    decreases n,
{
    if n <= 0 {
        now
    } else {
        settled_on(Some(settled_after(now, later, n - 1)), later[n - 1])
    }
}

proof fn lemma_settled_after(now: TlsView, later: Seq<TlsView>, n: int)
    requires
        0 <= n <= later.len(),
    ensures
        settled_after(now, later, n) == now,
    decreases n,
{
    if n > 0 {
        lemma_settled_after(now, later, n - 1);
    }
}

/// What came of the file of certificates.
#[derive(Debug)]
pub enum BundleRead {
    /// It was read, and holds as many certificates.
    Certificates(usize),
    Unparsed(String),
    Unread(String),
}

/// What people are warned of: a file that adds nothing does not stop a command.
pub fn bundle_warning(path: &str, read: &BundleRead) -> (r: Option<String>)
    ensures
        opt_view(r) == (match *read {
            BundleRead::Certificates(n) => if n == 0 {
                Some("knack: warning: no PEM certificates found in CA bundle "@ + path@)
            } else {
                None
            },
            BundleRead::Unparsed(e) => Some(
                "knack: warning: ignoring CA bundle "@ + path@ + " (parse failed: "@ + e@ + ")"@,
            ),
            BundleRead::Unread(e) => Some(
                "knack: warning: ignoring CA bundle "@ + path@ + " (read failed: "@ + e@ + ")"@,
            ),
        }),
{
    match read {
        BundleRead::Certificates(n) => if *n == 0 {
            Some(
                crate::errors::prefixed(
                    "knack: warning: no PEM certificates found in CA bundle ",
                    path,
                ),
            )
        } else {
            None
        },
        BundleRead::Unparsed(e) => Some(
            concat5(
                "knack: warning: ignoring CA bundle ",
                path,
                " (parse failed: ",
                e.as_str(),
                ")",
            ),
        ),
        BundleRead::Unread(e) => Some(
            concat5(
                "knack: warning: ignoring CA bundle ",
                path,
                " (read failed: ",
                e.as_str(),
                ")",
            ),
        ),
    }
}

} // verus!
