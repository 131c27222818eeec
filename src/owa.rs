use vstd::prelude::*;
use vstd::string::*;
use crate::text::{occurs_in, contains, strip_prefix};
use crate::ntlm::{NTLM, NtlmError, domain_meets};

verus! {

/// Path under which the target serves its web mail.
pub const OWA_BASE: &'static str = "/owa/";

/// Path to which login forms are posted.
pub const OWA_LOGIN: &'static str = "/owa/auth.owa";

/// A user name that no directory is expected to hold, used to time a failing login.
pub const NON_EXISTING_USER: &'static str = "IWillN3v3rEx1stInAD0ma!nIth1nk";

/// The password sent with `NON_EXISTING_USER`.
pub const CALIBRATION_PASSWORD: &'static str = "n0t_in_u$!sA123e";

/// The NTLM negotiate message sent to obtain a challenge.
pub const NTLM_NEGOTIATE: &'static str = "NTLM TlRMTVNTUAABAAAAB4IIAAAAAAAAAAAAAAAAAAAAAAA=";

/// The HTTP status that marks an endpoint demanding authentication.
pub const UNAUTHORIZED: u16 = 401;

/// How a target authenticates its users.
#[derive(Debug, Clone, Copy, PartialEq, Eq, Structural)]
pub enum OwaAuthMethod {
    Form,
    Ntlm,
    Basic,
    Oauth,
    Unknown,
}

/// What a login attempt revealed.
#[derive(Debug, Clone, Copy, PartialEq, Eq, Structural)]
pub enum OwaResult {
    UserNotFound,
    UserExists,
    PasswordValid,
}

/// How a login request ended at the transport level.
#[derive(Debug)]
pub enum LoginOutcome {
    /// The request ran past the client's timeout.
    Timeout,
    /// Any other transport failure.
    TransportError,
    /// A response arrived, with its `Location` header if it had one.
    Response { location: Option<String> },
}

/// Why the target's domain could not be learnt.
#[derive(Debug, Clone, Copy, PartialEq, Eq, Structural)]
pub enum DomainError {
    /// No well-known endpoint demanded authentication.
    NoAuthEndpointFound,
    /// The endpoint's answer carried no NTLM challenge.
    NoChallenge,
    /// The challenge could not be read.
    Challenge(NtlmError),
}

pub open spec fn opt_view(o: Option<&str>) -> Option<Seq<char>> {
    match o {
        Some(s) => Some(s@),
        None => None,
    }
}

pub open spec fn strings_view(v: Seq<String>) -> Seq<Seq<char>> {
    v.map_values(|s: String| s@)
}

/// Some challenge in `auth` names scheme `scheme`.
pub open spec fn any_names(auth: Seq<Seq<char>>, scheme: Seq<char>) -> bool {
    exists|i: int| 0 <= i < auth.len() && occurs_in(#[trigger] auth[i], scheme)
}

/// The authentication method that a response's `Location` and
/// `WWW-Authenticate` headers reveal.
pub open spec fn auth_method_of(location: Option<Seq<char>>, auth: Seq<Seq<char>>) -> OwaAuthMethod {
    match location {
        Some(l) => if occurs_in(l, "/owa/auth"@) {
            OwaAuthMethod::Form
        } else if occurs_in(l, "login.microsoftonline.com"@) {
            OwaAuthMethod::Oauth
        } else {
            OwaAuthMethod::Unknown
        },
        None => if any_names(auth, "NTLM"@) {
            OwaAuthMethod::Ntlm
        } else if any_names(auth, "Basic"@) {
            OwaAuthMethod::Basic
        } else {
            OwaAuthMethod::Unknown
        },
    }
}

/// Whether some value of `auth` holds `scheme`.
fn any_contains(auth: &Vec<String>, scheme: &str) -> (r: bool)
    ensures
        r == any_names(strings_view(auth@), scheme@),
{
    let mut i: usize = 0;
    while i < auth.len()
        invariant
            i <= auth@.len(),
            forall|j: int| 0 <= j < i ==> !occurs_in(#[trigger] auth@[j]@, scheme@),
        decreases auth@.len() - i,
    {
        if contains(auth[i].as_str(), scheme) {
            assert(strings_view(auth@)[i as int] == auth@[i as int]@);
            return true;
        }
        i = i + 1;
    }
    proof {
        assert forall|j: int| 0 <= j < strings_view(auth@).len() implies !occurs_in(
            #[trigger] strings_view(auth@)[j],
            scheme@,
        ) by {
            assert(strings_view(auth@)[j] == auth@[j]@);
        }
    }
    false
}

/// The authentication method that an unauthenticated request's response
/// reveals, from its `Location` header and its `WWW-Authenticate` values.
pub fn classify_auth(location: Option<&str>, authenticate: &Vec<String>) -> (r: OwaAuthMethod)
    ensures
        r == auth_method_of(opt_view(location), strings_view(authenticate@)),
{
    match location {
        Some(l) => {
            if contains(l, "/owa/auth") {
                OwaAuthMethod::Form
            } else if contains(l, "login.microsoftonline.com") {
                OwaAuthMethod::Oauth
            } else {
                OwaAuthMethod::Unknown
            }
        },
        None => {
            if any_contains(authenticate, "NTLM") {
                OwaAuthMethod::Ntlm
            } else if any_contains(authenticate, "Basic") {
                OwaAuthMethod::Basic
            } else {
                OwaAuthMethod::Unknown
            }
        },
    }
}

/// The name of an authentication method.
pub open spec fn method_name(m: OwaAuthMethod) -> Seq<char> {
    match m {
        OwaAuthMethod::Form => "Form"@,
        OwaAuthMethod::Ntlm => "Ntlm"@,
        OwaAuthMethod::Basic => "Basic"@,
        OwaAuthMethod::Oauth => "Oauth"@,
        OwaAuthMethod::Unknown => "Unknown"@,
    }
}

impl OwaAuthMethod {
    /// The method's name, as it is shown to users.
    pub fn name(&self) -> (r: String)
        ensures
            r@ == method_name(*self),
    {
        match self {
            OwaAuthMethod::Form => String::from_str("Form"),
            OwaAuthMethod::Ntlm => String::from_str("Ntlm"),
            OwaAuthMethod::Basic => String::from_str("Basic"),
            OwaAuthMethod::Oauth => String::from_str("Oauth"),
            OwaAuthMethod::Unknown => String::from_str("Unknown"),
        }
    }
}

/// What a login attempt that ended with `outcome` reveals.
pub open spec fn login_result_of(outcome: LoginOutcome) -> OwaResult {
    match outcome {
        LoginOutcome::Timeout => OwaResult::UserNotFound,
        LoginOutcome::TransportError => OwaResult::UserExists,
        LoginOutcome::Response { location } => match location {
            Some(l) => if occurs_in(l@, "/auth/logon.aspx"@) && occurs_in(l@, "reason="@) {
                OwaResult::UserExists
            } else {
                OwaResult::PasswordValid
            },
            None => OwaResult::PasswordValid,
        },
    }
}

/// Classifies a login attempt: a timeout means the user does not exist, any
/// other transport failure or a redirect to the logon page with a `reason`
/// means the user exists, and anything else means the password was accepted.
pub fn classify_login(outcome: &LoginOutcome) -> (r: OwaResult)
    ensures
        r == login_result_of(*outcome),
{
    match outcome {
        LoginOutcome::Timeout => OwaResult::UserNotFound,
        LoginOutcome::TransportError => OwaResult::UserExists,
        LoginOutcome::Response { location } => match location {
            Some(l) => {
                if contains(l.as_str(), "/auth/logon.aspx") && contains(l.as_str(), "reason=") {
                    OwaResult::UserExists
                } else {
                    OwaResult::PasswordValid
                }
            },
            None => OwaResult::PasswordValid,
        },
    }
}

/// A web-mail target: its base URI and the authentication domain, empty until learnt.
#[derive(Debug)]
pub struct Owa {
    uri: String,
    domain: String,
}

/// The fields of a login form for `user` and `password`, in the order they are sent.
pub open spec fn login_fields(uri: Seq<char>, domain: Seq<char>, user: Seq<char>, password: Seq<char>) -> Seq<(Seq<char>, Seq<char>)> {
    seq![
        ("destination"@, uri + "/owa"@),
        ("flags"@, "4"@),
        ("forcedownlevel"@, "0"@),
        ("username"@, domain + "\\"@ + user),
        ("password"@, password),
        ("passwordText"@, Seq::empty()),
        ("isUtf8"@, "1"@),
    ]
}

pub open spec fn pairs_view(v: Seq<(String, String)>) -> Seq<(Seq<char>, Seq<char>)> {
    v.map_values(|p: (String, String)| (p.0@, p.1@))
}

/// The outcome of learning the domain of a target whose domain was `domain`,
/// from the challenge header `header`: the new domain, or the error.
pub open spec fn domain_learnt(domain: Seq<char>, header: Option<Seq<char>>, r: Result<(), DomainError>, new_domain: Seq<char>) -> bool {
    if domain.len() != 0 {
        r is Ok && new_domain == domain
    } else {
        match header {
            None => r == Err::<(), DomainError>(DomainError::NoChallenge) && new_domain == domain,
            Some(h) => if !(5 <= h.len() && h.subrange(0, 5) == "NTLM "@) {
                r == Err::<(), DomainError>(DomainError::NoChallenge) && new_domain == domain
            } else {
                exists|d: Result<String, NtlmError>|
                    #[trigger] domain_meets(h.subrange(5, h.len() as int), d) && match d {
                        Ok(name) => r is Ok && new_domain == name@,
                        Err(e) => r == Err::<(), DomainError>(DomainError::Challenge(e)) && new_domain == domain,
                    }
            },
        }
    }
}

impl Owa {
    pub closed spec fn uri_view(&self) -> Seq<char> {
        self.uri@
    }

    pub closed spec fn domain_view(&self) -> Seq<char> {
        self.domain@
    }

    /// A target at `uri`, with `domain` if it is known.
    pub fn new(uri: String, domain: Option<String>) -> (r: Self)
        ensures
            r.uri_view() == uri@,
            r.domain_view() == match domain {
                Some(d) => d@,
                None => Seq::<char>::empty(),
            },
    {
        let d = match domain {
            Some(d) => d,
            None => String::new(),
        };
        Owa { uri, domain: d }
    }

    pub fn get_domain(&self) -> (r: String)
        ensures
            r@ == self.domain_view(),
    {
        self.domain.clone()
    }

    pub fn get_uri(&self) -> (r: String)
        ensures
            r@ == self.uri_view(),
    {
        self.uri.clone()
    }

    /// Whether the domain is still to be learnt.
    pub fn needs_domain(&self) -> (r: bool)
        ensures
            r == (self.domain_view().len() == 0),
    {
        self.domain.unicode_len() == 0
    }

    /// The URI of `path` on this target.
    pub fn url(&self, path: &str) -> (r: String)
        ensures
            r@ == self.uri_view() + path@,
    {
        self.uri.clone().concat(path)
    }

    /// Where an unauthenticated request shows how the target authenticates.
    pub fn auth_probe_url(&self) -> (r: String)
        ensures
            r@ == self.uri_view() + OWA_BASE@,
    {
        self.url(OWA_BASE)
    }

    /// Where login forms are posted.
    pub fn login_url(&self) -> (r: String)
        ensures
            r@ == self.uri_view() + OWA_LOGIN@,
    {
        self.url(OWA_LOGIN)
    }

    /// The login form that submits `user` and `password` in this target's domain.
    pub fn get_login_data(&self, user: &str, password: &str) -> (r: Vec<(String, String)>)
        ensures
            pairs_view(r@) == login_fields(self.uri_view(), self.domain_view(), user@, password@),
    {
        let mut v: Vec<(String, String)> = Vec::new();
        v.push((String::from_str("destination"), self.uri.clone().concat("/owa")));
        v.push((String::from_str("flags"), String::from_str("4")));
        v.push((String::from_str("forcedownlevel"), String::from_str("0")));
        v.push((String::from_str("username"), self.domain.clone().concat("\\").concat(user)));
        v.push((String::from_str("password"), String::from_str(password)));
        v.push((String::from_str("passwordText"), String::new()));
        v.push((String::from_str("isUtf8"), String::from_str("1")));
        assert(pairs_view(v@) =~= login_fields(self.uri_view(), self.domain_view(), user@, password@));
        v
    }

    /// The login form that times a failing login, for a user that does not exist.
    pub fn calibration_login_data(&self) -> (r: Vec<(String, String)>)
        ensures
            pairs_view(r@) == login_fields(self.uri_view(), self.domain_view(), NON_EXISTING_USER@, CALIBRATION_PASSWORD@),
    {
        self.get_login_data(NON_EXISTING_USER, CALIBRATION_PASSWORD)
    }

    /// Learns the domain from the `WWW-Authenticate` value that answered the NTLM
    /// negotiate message; a domain already known is kept and nothing is read.
    pub fn get_domain_name(&mut self, challenge_header: Option<&str>) -> (r: Result<(), DomainError>)
        ensures
            final(self).uri_view() == old(self).uri_view(),
            domain_learnt(old(self).domain_view(), opt_view(challenge_header), r, final(self).domain_view()),
    {
        if self.domain.unicode_len() != 0 {
            return Ok(());
        }
        let h = match challenge_header {
            Some(h) => h,
            None => return Err(DomainError::NoChallenge),
        };
        let body = match strip_prefix(h, "NTLM ") {
            Some(b) => b,
            None => {
                proof { reveal_strlit("NTLM "); }
                return Err(DomainError::NoChallenge);
            },
        };
        proof { reveal_strlit("NTLM "); }
        let d = NTLM::parse_domain(body);
        let ghost dg = d;
        assert(domain_meets(h@.subrange(5, h@.len() as int), dg));
        match d {
            Ok(name) => {
                self.domain = name;
                Ok(())
            },
            Err(e) => Err(DomainError::Challenge(e)),
        }
    }
}

/// The per-request timeout derived from the time a login of a non-existent
/// user took: half of it.
pub fn derive_timeout(baseline_nanos: u64) -> (r: u64)
    ensures
        r == baseline_nanos / 2,
{
    baseline_nanos / 2
}

/// The well-known paths probed, in order, for an endpoint that demands NTLM.
pub fn owa_endpoints() -> (r: Vec<String>)
    ensures
        strings_view(r@) == seq!["/ews"@, "/autodiscover/autodiscover.xml"@, "/rpc"@, "/mapi"@, "/oab"@],
{
    let mut v: Vec<String> = Vec::new();
    v.push(String::from_str("/ews"));
    v.push(String::from_str("/autodiscover/autodiscover.xml"));
    v.push(String::from_str("/rpc"));
    v.push(String::from_str("/mapi"));
    v.push(String::from_str("/oab"));
    assert(strings_view(v@) =~= seq!["/ews"@, "/autodiscover/autodiscover.xml"@, "/rpc"@, "/mapi"@, "/oab"@]);
    v
}

/// What the endpoint scan does next.
#[derive(Debug, Clone, Copy, PartialEq, Eq, Structural)]
pub enum ScanStep {
    /// Request the candidate at this index.
    Probe(usize),
    /// The candidate at this index demanded authentication: use it.
    Found(usize),
    /// No candidate demanded authentication.
    NotFound,
}

/// The first step of a scan over `n` candidates.
pub fn scan_start(n: usize) -> (r: ScanStep)
    ensures
        r == (if n == 0 { ScanStep::NotFound } else { ScanStep::Probe(0) }),
{
    if n == 0 { ScanStep::NotFound } else { ScanStep::Probe(0) }
}

/// The step after candidate `probed` of `n` answered with `status`
/// (`None` when the request failed): stop at the first `401`.
pub open spec fn scan_after(n: nat, probed: nat, status: Option<u16>) -> ScanStep {
    if status == Some(UNAUTHORIZED) {
        ScanStep::Found(probed as usize)
    } else if probed + 1 < n {
        ScanStep::Probe((probed + 1) as usize)
    } else {
        ScanStep::NotFound
    }
}

pub fn scan_next(n: usize, probed: usize, status: Option<u16>) -> (r: ScanStep)
    requires
        probed < n,
    ensures
        r == scan_after(n as nat, probed as nat, status),
{
    match status {
        Some(s) => if s == UNAUTHORIZED {
            return ScanStep::Found(probed);
        },
        None => {},
    }
    if probed + 1 < n { ScanStep::Probe(probed + 1) } else { ScanStep::NotFound }
}

/// Where a scan that answers candidate `i` onwards with `statuses` ends:
/// the index it settles on, or `None`.
pub open spec fn scan_from(statuses: Seq<Option<u16>>, i: nat) -> Option<nat>
    decreases statuses.len() - i,
{
    if i >= statuses.len() {
        None
    } else {
        match scan_after(statuses.len(), i, statuses[i as int]) {
            ScanStep::Found(k) => Some(k as nat),
            ScanStep::Probe(_) => scan_from(statuses, i + 1),
            ScanStep::NotFound => None,
        }
    }
}

/// An endpoint scan settles on the first candidate, in list order, that
/// answered `401`, whatever later candidates answer; and on none when no
/// candidate did.
pub proof fn scan_finds_first(statuses: Seq<Option<u16>>)
    requires
        statuses.len() <= usize::MAX,
    ensures
        match scan_from(statuses, 0) {
            Some(k) => k < statuses.len() && statuses[k as int] == Some(UNAUTHORIZED)
                && forall|j: int| 0 <= j < k ==> statuses[j] != Some(UNAUTHORIZED),
            None => forall|j: int| 0 <= j < statuses.len() ==> statuses[j] != Some(UNAUTHORIZED),
        },
{
    scan_from_inv(statuses, 0);
}

proof fn scan_from_inv(statuses: Seq<Option<u16>>, i: nat)
    requires
        statuses.len() <= usize::MAX,
    ensures
        match scan_from(statuses, i) {
            Some(k) => i <= k < statuses.len() && statuses[k as int] == Some(UNAUTHORIZED)
                && forall|j: int| i <= j < k ==> statuses[j] != Some(UNAUTHORIZED),
            None => forall|j: int| i <= j < statuses.len() ==> statuses[j] != Some(UNAUTHORIZED),
        },
    decreases statuses.len() - i,
{
    if i < statuses.len() {
        scan_from_inv(statuses, i + 1);
    }
}

} // verus!
