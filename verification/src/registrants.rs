//! Domain registrant accounts: the domains they hold and their DNS and glue records.
use vstd::prelude::*;
use vstd::string::*;

use crate::nix::views;
use crate::text::{concat2, concat3, owned, split_whitespace, str_eq, ws_tokens};

verus! {

/// A domain as listed by a registrant account.
#[derive(Debug)]
pub struct DomainInfo {
    pub domain: String,
    pub provider: String,
    pub account: String,
    pub expiry_date: Option<String>,
    pub auto_renew: bool,
}

/// A domain as the Porkbun API lists it.
#[derive(Debug)]
pub struct PorkbunDomain {
    pub domain: String,
    pub expire_date: Option<String>,
    pub auto_renew: i32,
    pub status: Option<String>,
}

/// A DNS record as the Porkbun API returns it.
#[derive(Debug)]
pub struct PorkbunDnsRecord {
    pub id: String,
    pub name: String,
    pub record_type: String,
    pub content: String,
    pub ttl: String,
    pub prio: Option<String>,
    pub notes: Option<String>,
}

/// The addresses of a glue record.
#[derive(Debug)]
pub struct PorkbunGlueIps {
    pub v4: Vec<String>,
    pub v6: Vec<String>,
}

/// A glue record: a host name and its addresses.
#[derive(Debug)]
pub struct PorkbunGlueRecord {
    pub host: String,
    pub ips: PorkbunGlueIps,
}

/// A domain as the Namecheap API lists it.
#[derive(Debug)]
pub struct NamecheapDomain {
    pub name: String,
    pub expires: String,
    pub auto_renew: bool,
}

/// The domain entry for a Porkbun domain of `account`: auto-renewal is on
/// exactly when the API reports `1`.
pub fn porkbun_domain_info(d: PorkbunDomain, account: &str) -> (r: DomainInfo)
    ensures
        r.domain == d.domain,
        r.provider@ == "Porkbun"@,
        r.account@ == account@,
        r.expiry_date == d.expire_date,
        r.auto_renew == (d.auto_renew == 1),
{
    DomainInfo {
        domain: d.domain,
        provider: owned("Porkbun"),
        account: owned(account),
        expiry_date: d.expire_date,
        auto_renew: d.auto_renew == 1,
    }
}

/// The domain entry for a Namecheap domain of `account`.
pub fn namecheap_domain_info(d: NamecheapDomain, account: &str) -> (r: DomainInfo)
    ensures
        r.domain == d.name,
        r.provider@ == "Namecheap"@,
        r.account@ == account@,
        r.expiry_date == Some(d.expires),
        r.auto_renew == d.auto_renew,
{
    DomainInfo {
        domain: d.name,
        provider: owned("Namecheap"),
        account: owned(account),
        expiry_date: Some(d.expires),
        auto_renew: d.auto_renew,
    }
}

/// `s` spells `true` in any letter case.
pub open spec fn says_true(s: Seq<char>) -> bool {
    &&& s.len() == 4
    &&& (s[0] == 't' || s[0] == 'T')
    &&& (s[1] == 'r' || s[1] == 'R')
    &&& (s[2] == 'u' || s[2] == 'U')
    &&& (s[3] == 'e' || s[3] == 'E')
}

/// Whether Namecheap's `AutoRenew` attribute says `true`, in any letter case.
pub fn namecheap_auto_renew(s: &str) -> (r: bool)
    ensures
        r == says_true(s@),
{
    if s.unicode_len() != 4 {
        return false;
    }
    let a = s.get_char(0);
    let b = s.get_char(1);
    let c = s.get_char(2);
    let d = s.get_char(3);
    (a == 't' || a == 'T') && (b == 'r' || b == 'R') && (c == 'u' || c == 'U') && (d == 'e' || d == 'E')
}

/// Whether a Porkbun response reports success.
pub fn porkbun_status_ok(status: &str) -> (r: bool)
    ensures
        r == (status@ == "SUCCESS"@),
{
    str_eq(status, "SUCCESS")
}

/// Whether a Namecheap response reports success.
pub fn namecheap_status_ok(status: &str) -> (r: bool)
    ensures
        r == (status@ == "OK"@),
{
    str_eq(status, "OK")
}


/// A step of fetching an account's domains that can fail.
#[derive(Clone, Copy, Debug, PartialEq, Eq, Structural)]
pub enum FetchStep {
    PorkbunApiKey,
    PorkbunSecretKey,
    PorkbunApi,
    NamecheapUser,
    NamecheapApiKey,
    NamecheapApi,
}

/// The message of a failed step for account `name`.
pub open spec fn fetch_error_text(step: FetchStep, name: Seq<char>, e: Seq<char>) -> Seq<char> {
    match step {
        FetchStep::PorkbunApiKey => "Porkbun account '"@ + name + "' API key error: "@ + e,
        FetchStep::PorkbunSecretKey => "Porkbun account '"@ + name + "' Secret key error: "@ + e,
        FetchStep::PorkbunApi => "Porkbun account '"@ + name + "' API error: "@ + e,
        FetchStep::NamecheapUser => "Namecheap account '"@ + name + "' user command failed: "@ + e,
        FetchStep::NamecheapApiKey => "Namecheap account '"@ + name + "' api key command failed: "@ + e,
        FetchStep::NamecheapApi => "Namecheap account '"@ + name + "' error: "@ + e,
    }
}

/// The message of a failed step (see [`fetch_error_text`]).
pub fn fetch_error(step: FetchStep, name: &str, e: &str) -> (r: String)
    ensures
        r@ == fetch_error_text(step, name@, e@),
{
    let (head, tail) = match step {
        FetchStep::PorkbunApiKey => ("Porkbun account '", "' API key error: "),
        FetchStep::PorkbunSecretKey => ("Porkbun account '", "' Secret key error: "),
        FetchStep::PorkbunApi => ("Porkbun account '", "' API error: "),
        FetchStep::NamecheapUser => ("Namecheap account '", "' user command failed: "),
        FetchStep::NamecheapApiKey => ("Namecheap account '", "' api key command failed: "),
        FetchStep::NamecheapApi => ("Namecheap account '", "' error: "),
    };
    let mut r = concat3(head, name, tail);
    r.append(e);
    r
}

/// The program and arguments of a credential command: its words; an empty
/// command is refused.
pub fn command_words(command: &str) -> (r: Result<(String, Vec<String>), String>)
    ensures
        match r {
            Ok((p, args)) => ws_tokens(command@).len() > 0 && p@ == ws_tokens(command@)[0] && views(args@)
                == ws_tokens(command@).drop_first(),
            Err(e) => ws_tokens(command@).len() == 0 && e@ == "Empty command"@,
        },
{
    let words = split_whitespace(command);
    if words.len() == 0 {
        return Err(owned("Empty command"));
    }
    let mut args: Vec<String> = Vec::new();
    let mut i: usize = 1;
    while i < words.len()
        invariant
            1 <= i <= words@.len(),
            views(words@) == ws_tokens(command@),
            views(args@) == views(words@).subrange(1, i as int),
        decreases words@.len() - i,
    {
        crate::ssh::push_string(&mut args, words[i].clone());
        assert(views(args@) =~= views(words@).subrange(1, i + 1));
        i = i + 1;
    }
    assert(views(words@).subrange(1, words@.len() as int) =~= views(words@).drop_first());
    assert(views(words@)[0] == words@[0]@);
    Ok((words[0].clone(), args))
}

/// The message of a credential command that could not be started.
pub fn spawn_failure(program: &str, e: &str) -> (r: String)
    ensures
        r@ == "Failed to spawn command '"@ + program@ + "': "@ + e@,
{
    let mut r = concat3("Failed to spawn command '", program, "': ");
    r.append(e);
    r
}

/// The message of a credential command that failed, with its exit status
/// and its error output trimmed.
pub fn command_failure(status: &str, stderr: &str) -> (r: String)
    ensures
        r@ == "Command failed ("@ + status@ + "): "@ + crate::text::trim_seq(stderr@),
{
    let mut r = concat3("Command failed (", status, "): ");
    let t = crate::text::trim_str(stderr);
    r.append(t.as_str());
    r
}

/// The items of a Porkbun response: those it holds where its status is
/// `SUCCESS` (none where it holds none), else an error with the body.
pub fn porkbun_listing<T>(status: &str, items: Option<Vec<T>>, body: &str) -> (r: Result<Vec<T>, String>)
    ensures
        status@ == "SUCCESS"@ ==> (r matches Ok(v) && v@ == match items {
            Some(d) => d@,
            None => Seq::empty(),
        }),
        status@ != "SUCCESS"@ ==> (r matches Err(e) && e@ == "Porkbun API Error: "@ + body@),
{
    if porkbun_status_ok(status) {
        match items {
            Some(d) => Ok(d),
            None => Ok(Vec::new()),
        }
    } else {
        Err(concat2("Porkbun API Error: ", body))
    }
}

/// The glue records of a Porkbun response's hosts, in order.
pub fn glue_records(hosts: Vec<(String, PorkbunGlueIps)>) -> (r: Vec<PorkbunGlueRecord>)
    ensures
        r@.len() == hosts@.len(),
        forall|i: int| 0 <= i < hosts@.len() ==> (#[trigger] r@[i]).host == hosts@[i].0 && r@[i].ips == hosts@[i].1,
{
    let ghost hv = hosts@;
    let mut rest = hosts;
    let mut r: Vec<PorkbunGlueRecord> = Vec::new();
    let ghost mut k: int = 0;
    while rest.len() > 0
        invariant
            0 <= k <= hv.len(),
            rest@ == hv.subrange(k, hv.len() as int),
            r@.len() == k,
            forall|i: int| 0 <= i < k ==> (#[trigger] r@[i]).host == hv[i].0 && r@[i].ips == hv[i].1,
        decreases rest@.len(),
    {
        let (host, ips) = rest.remove(0);
        r.push(PorkbunGlueRecord { host, ips });
        proof {
            k = k + 1;
            assert(rest@ =~= hv.subrange(k, hv.len() as int));
        }
    }
    r
}

/// What a Porkbun request is for.
#[derive(Clone, Copy, Debug, PartialEq, Eq, Structural)]
pub enum PorkbunQuery {
    Domains,
    DnsRecords,
    GlueRecords,
}

/// The address of a Porkbun request; the record requests name the domain.
pub fn porkbun_url(q: PorkbunQuery, domain: &str) -> (r: String)
    ensures
        r@ == match q {
            PorkbunQuery::Domains => "https://api.porkbun.com/api/json/v3/domain/listAll"@,
            PorkbunQuery::DnsRecords => "https://api.porkbun.com/api/json/v3/dns/retrieve/"@ + domain@,
            PorkbunQuery::GlueRecords => "https://api.porkbun.com/api/json/v3/domain/getGlue/"@ + domain@,
        },
{
    match q {
        PorkbunQuery::Domains => owned("https://api.porkbun.com/api/json/v3/domain/listAll"),
        PorkbunQuery::DnsRecords => concat2("https://api.porkbun.com/api/json/v3/dns/retrieve/", domain),
        PorkbunQuery::GlueRecords => concat2("https://api.porkbun.com/api/json/v3/domain/getGlue/", domain),
    }
}

/// The query parameters of Namecheap's domain listing for `user` with `key`,
/// asked from address `ip`.
pub fn namecheap_params(user: &str, key: &str, ip: &str) -> (r: Vec<(String, String)>)
    ensures
        r@.map_values(|p: (String, String)| (p.0@, p.1@)) == seq![
            ("ApiUser"@, user@),
            ("ApiKey"@, key@),
            ("UserName"@, user@),
            ("Command"@, "namecheap.domains.getList"@),
            ("ClientIp"@, ip@),
            ("PageSize"@, "100"@),
        ],
{
    let mut r: Vec<(String, String)> = Vec::new();
    r.push((owned("ApiUser"), owned(user)));
    r.push((owned("ApiKey"), owned(key)));
    r.push((owned("UserName"), owned(user)));
    r.push((owned("Command"), owned("namecheap.domains.getList")));
    r.push((owned("ClientIp"), owned(ip)));
    r.push((owned("PageSize"), owned("100")));
    assert(r@.map_values(|p: (String, String)| (p.0@, p.1@)) =~= seq![
        ("ApiUser"@, user@),
        ("ApiKey"@, key@),
        ("UserName"@, user@),
        ("Command"@, "namecheap.domains.getList"@),
        ("ClientIp"@, ip@),
        ("PageSize"@, "100"@),
    ]);
    r
}

/// A domain as Namecheap's listing gives it: name, expiry and the auto-renew flag as text.
#[derive(Debug)]
pub struct NamecheapDomainRaw {
    pub name: String,
    pub expires: String,
    pub auto_renew: String,
}

/// The domains of a Namecheap listing where its status is `OK`; else an
/// error with the first error it reports (or none), naming the address asked from.
pub fn namecheap_listing(status: &str, listed: Vec<NamecheapDomainRaw>, errors: &Vec<String>, ip: &str) -> (r: Result<Vec<NamecheapDomain>, String>)
    ensures
        status@ == "OK"@ ==> (r matches Ok(v) && v@.len() == listed@.len() && forall|i: int| 0 <= i < listed@.len() ==> {
            let d = #[trigger] v@[i];
            &&& d.name == listed@[i].name
            &&& d.expires == listed@[i].expires
            &&& d.auto_renew == says_true(listed@[i].auto_renew@)
        }),
        status@ != "OK"@ ==> (r matches Err(e) && e@ == "Namecheap API Error (IP: "@ + ip@ + "): "@ + (if errors@.len() > 0 {
            errors@[0]@
        } else {
            "Unknown API Error"@
        })),
{
    if namecheap_status_ok(status) {
        let ghost lv = listed@;
        let mut rest = listed;
        let mut r: Vec<NamecheapDomain> = Vec::new();
        let ghost mut k: int = 0;
        while rest.len() > 0
            invariant
                0 <= k <= lv.len(),
                rest@ == lv.subrange(k, lv.len() as int),
                r@.len() == k,
                forall|i: int| 0 <= i < k ==> {
                    let d = #[trigger] r@[i];
                    &&& d.name == lv[i].name
                    &&& d.expires == lv[i].expires
                    &&& d.auto_renew == says_true(lv[i].auto_renew@)
                },
            decreases rest@.len(),
        {
            let raw = rest.remove(0);
            let auto = namecheap_auto_renew(raw.auto_renew.as_str());
            r.push(NamecheapDomain { name: raw.name, expires: raw.expires, auto_renew: auto });
            proof {
                k = k + 1;
                assert(rest@ =~= lv.subrange(k, lv.len() as int));
            }
        }
        Ok(r)
    } else {
        let first = if errors.len() > 0 { errors[0].as_str() } else { "Unknown API Error" };
        let mut e = concat3("Namecheap API Error (IP: ", ip, "): ");
        e.append(first);
        Err(e)
    }
}

/// The domain entries of Porkbun account `name`, in the order listed.
pub fn porkbun_account_domains(name: &str, listed: Vec<PorkbunDomain>) -> (r: Vec<DomainInfo>)
    ensures
        r@.len() == listed@.len(),
        forall|i: int| 0 <= i < listed@.len() ==> {
            let d = #[trigger] r@[i];
            &&& d.domain == listed@[i].domain
            &&& d.provider@ == "Porkbun"@
            &&& d.account@ == name@
            &&& d.expiry_date == listed@[i].expire_date
            &&& d.auto_renew == (listed@[i].auto_renew == 1)
        },
{
    let ghost lv = listed@;
    let mut rest = listed;
    let mut r: Vec<DomainInfo> = Vec::new();
    let ghost mut k: int = 0;
    while rest.len() > 0
        invariant
            0 <= k <= lv.len(),
            rest@ == lv.subrange(k, lv.len() as int),
            r@.len() == k,
            forall|i: int| 0 <= i < k ==> {
                let d = #[trigger] r@[i];
                &&& d.domain == lv[i].domain
                &&& d.provider@ == "Porkbun"@
                &&& d.account@ == name@
                &&& d.expiry_date == lv[i].expire_date
                &&& d.auto_renew == (lv[i].auto_renew == 1)
            },
        decreases rest@.len(),
    {
        let d = rest.remove(0);
        r.push(porkbun_domain_info(d, name));
        proof {
            k = k + 1;
            assert(rest@ =~= lv.subrange(k, lv.len() as int));
        }
    }
    r
}

/// The domain entries of Namecheap account `name`, in the order listed.
pub fn namecheap_account_domains(name: &str, listed: Vec<NamecheapDomain>) -> (r: Vec<DomainInfo>)
    ensures
        r@.len() == listed@.len(),
        forall|i: int| 0 <= i < listed@.len() ==> {
            let d = #[trigger] r@[i];
            &&& d.domain == listed@[i].name
            &&& d.provider@ == "Namecheap"@
            &&& d.account@ == name@
            &&& d.expiry_date == Some(listed@[i].expires)
            &&& d.auto_renew == listed@[i].auto_renew
        },
{
    let ghost lv = listed@;
    let mut rest = listed;
    let mut r: Vec<DomainInfo> = Vec::new();
    let ghost mut k: int = 0;
    while rest.len() > 0
        invariant
            0 <= k <= lv.len(),
            rest@ == lv.subrange(k, lv.len() as int),
            r@.len() == k,
            forall|i: int| 0 <= i < k ==> {
                let d = #[trigger] r@[i];
                &&& d.domain == lv[i].name
                &&& d.provider@ == "Namecheap"@
                &&& d.account@ == name@
                &&& d.expiry_date == Some(lv[i].expires)
                &&& d.auto_renew == lv[i].auto_renew
            },
        decreases rest@.len(),
    {
        let d = rest.remove(0);
        r.push(namecheap_domain_info(d, name));
        proof {
            k = k + 1;
            assert(rest@ =~= lv.subrange(k, lv.len() as int));
        }
    }
    r
}

} // verus!
