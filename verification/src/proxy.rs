//! The interception proxy's configuration: the game server it redirects
//! to, its port, the domains whose requests it intercepts, whether it
//! runs, and the log of the last redirections.
//!
//! The proxy server, the system proxy settings and the certificates are
//! handled outside; this state decides what is intercepted and where it
//! goes.
use vstd::prelude::*;
use crate::download::text_of;
use crate::text::{contains_seq, decimal, push_decimal, push_str, str_contains, time_of_day_shape};

verus! {

/// One redirection made by the proxy.
pub struct ProxyLogEntry {
    pub timestamp: String,
    pub original_url: String,
    pub redirected_url: String,
}

/// The proxy keeps at most this many log entries.
pub const MAX_PROXY_LOGS: usize = 100;

/// What the proxy does with a request.
pub enum RequestRoute {
    /// Not intercepted: pass it on unchanged.
    Pass,
    /// An intercepted `CONNECT`: answer it at once.
    AnswerConnect,
    /// An intercepted request: send it to this address instead.
    Redirect(String),
}

/// The proxy's state.
pub struct ProxyConfig {
    /// Where intercepted requests are sent (scheme and host).
    pub server: String,
    pub port: u16,
    /// The domains whose requests are intercepted.
    pub user_domains: Vec<String>,
    /// The latest redirections, oldest first.
    pub logs: Vec<ProxyLogEntry>,
    pub running: bool,
}

/// The texts of a list of strings.
pub open spec fn texts(v: Seq<String>) -> Seq<Seq<char>> {
    v.map_values(|s: String| s@)
}

/// No text occurs twice.
pub open spec fn no_duplicates(s: Seq<Seq<char>>) -> bool {
    forall|i: int, j: int| 0 <= i < s.len() && 0 <= j < s.len() && i != j ==> s[i] != s[j]
}

/// The domains intercepted by default.
pub open spec fn default_domains() -> Seq<Seq<char>> {
    seq![
        "hoyoverse.com"@,
        "mihoyo.com"@,
        "yuanshen.com"@,
        "starrails.com"@,
        "bhsr.com"@,
        "bh3.com"@,
        "honkaiimpact3.com"@,
        "zenlesszonezero.com"@,
        "yuanshen.com:12401"@,
    ]
}

/// The log after appending `e`: the oldest entry drops out past 100.
pub open spec fn log_appended(s: Seq<ProxyLogEntry>, e: ProxyLogEntry) -> Seq<ProxyLogEntry> {
    if s.len() + 1 > 100 {
        s.push(e).drop_first()
    } else {
        s.push(e)
    }
}

/// Whether requests to `uri` are intercepted: it contains one of the
/// domains.
pub open spec fn intercepts(domains: Seq<Seq<char>>, uri: Seq<char>) -> bool {
    exists|i: int| 0 <= i < domains.len() && contains_seq(uri, #[trigger] domains[i])
}

/// `Utc::now().format("%H:%M:%S").to_string()`: the time of day in UTC.
/// It depends on the clock, so only its shape is stated: chrono writes
/// each of hour, minute and second zero-padded to two digits.
#[verifier::external_body]
fn utc_time_of_day_text() -> (r: String)
    ensures
        time_of_day_shape(r@),
{
    chrono::Utc::now().format("%H:%M:%S").to_string()
}

fn quoted_message(before: &str, domain: &String, after: &str) -> (r: String)
    ensures
        r@ == before@ + domain@ + after@,
{
    let mut m = String::new();
    push_str(&mut m, before);
    push_str(&mut m, domain.as_str());
    push_str(&mut m, after);
    m
}

/// The domains intercepted by default, in order.
pub fn default_proxy_domains() -> (r: Vec<String>)
    ensures
        texts(r@) == default_domains(),
{
    let mut r: Vec<String> = Vec::new();
    r.push(text_of("hoyoverse.com"));
    r.push(text_of("mihoyo.com"));
    r.push(text_of("yuanshen.com"));
    r.push(text_of("starrails.com"));
    r.push(text_of("bhsr.com"));
    r.push(text_of("bh3.com"));
    r.push(text_of("honkaiimpact3.com"));
    r.push(text_of("zenlesszonezero.com"));
    r.push(text_of("yuanshen.com:12401"));
    assert(texts(r@) =~= default_domains());
    r
}

proof fn lemma_default_domains_distinct()
    ensures
        no_duplicates(default_domains()),
{
    reveal_strlit("hoyoverse.com");
    reveal_strlit("mihoyo.com");
    reveal_strlit("yuanshen.com");
    reveal_strlit("starrails.com");
    reveal_strlit("bhsr.com");
    reveal_strlit("bh3.com");
    reveal_strlit("honkaiimpact3.com");
    reveal_strlit("zenlesszonezero.com");
    reveal_strlit("yuanshen.com:12401");
    let d = default_domains();
    assert forall|i: int, j: int| 0 <= i < d.len() && 0 <= j < d.len() && i != j implies d[i]
        != d[j] by {
        if d[i].len() == d[j].len() {
            assert(d[i][0] != d[j][0] || d[i][1] != d[j][1] || d[i][2] != d[j][2] || d[i][3]
                != d[j][3]);
        }
    }
}

/// The system proxy setting that routes HTTP and HTTPS through the local
/// proxy on `port`.
pub fn proxy_server_setting(port: u16) -> (r: String)
    ensures
        r@ == "http=127.0.0.1:"@ + decimal(port as nat) + ";https=127.0.0.1:"@ + decimal(
            port as nat,
        ),
{
    let mut r = String::new();
    push_str(&mut r, "http=127.0.0.1:");
    push_decimal(&mut r, port as u64);
    push_str(&mut r, ";https=127.0.0.1:");
    push_decimal(&mut r, port as u64);
    r
}

/// The local proxy's address, `127.0.0.1:port`.
pub fn proxy_address(port: u16) -> (r: String)
    ensures
        r@ == "127.0.0.1:"@ + decimal(port as nat),
{
    let mut r = String::new();
    push_str(&mut r, "127.0.0.1:");
    push_decimal(&mut r, port as u64);
    r
}

/// Adding a domain that was not intercepted and removing it again gives
/// back the same domains.
pub proof fn lemma_add_then_remove_domain(domains: Seq<String>, d: String)
    requires
        !texts(domains).contains(d@),
    ensures
        texts(domains.push(d)).contains(d@),
        texts(domains.push(d)).remove(texts(domains.push(d)).index_of(d@)) == texts(domains),
{
    let t = texts(domains.push(d));
    assert(t[domains.len() as int] == d@);
    let k = t.index_of(d@);
    if k < domains.len() {
        assert(t[k] == texts(domains)[k]);
    }
    assert(k == domains.len());
    assert(t.remove(k) =~= texts(domains));
}

impl ProxyConfig {
    /// Well-formedness: intercepted domains are distinct and at most 100
    /// log entries are kept.
    pub open spec fn wf(&self) -> bool {
        &&& no_duplicates(texts(self.user_domains@))
        &&& self.logs@.len() <= 100
    }

    /// The initial state: redirecting to `https://ps.yuuki.me`, on port
    /// 8080, intercepting nothing, not running.
    pub fn new() -> (r: ProxyConfig)
        ensures
            r.wf(),
            r.server@ == "https://ps.yuuki.me"@,
            r.port == 8080,
            r.user_domains@.len() == 0,
            r.logs@.len() == 0,
            !r.running,
    {
        ProxyConfig {
            server: text_of("https://ps.yuuki.me"),
            port: 8080,
            user_domains: Vec::new(),
            logs: Vec::new(),
            running: false,
        }
    }

    /// Sets where intercepted requests go.
    pub fn set_proxy_addr(&mut self, addr: String) -> (r: String)
        requires
            old(self).wf(),
        ensures
            final(self).wf(),
            *final(self) == (ProxyConfig { server: addr, ..*old(self) }),
            r@ == "Proxy address set to: "@ + addr@,
    {
        let mut m = String::new();
        push_str(&mut m, "Proxy address set to: ");
        push_str(&mut m, addr.as_str());
        self.server = addr;
        m
    }

    /// Sets the port the proxy listens on.
    pub fn set_proxy_port(&mut self, port: u16) -> (r: String)
        requires
            old(self).wf(),
        ensures
            final(self).wf(),
            *final(self) == (ProxyConfig { port, ..*old(self) }),
            r@ == "Proxy port set to: "@ + decimal(port as nat),
    {
        let mut m = String::new();
        push_str(&mut m, "Proxy port set to: ");
        push_decimal(&mut m, port as u64);
        self.port = port;
        m
    }

    /// The position of `domain` among the intercepted domains.
    fn domain_position(&self, domain: &String) -> (r: Option<usize>)
        ensures
            match r {
                Some(i) => i < self.user_domains@.len() && self.user_domains@[i as int]@ == domain@
                    && forall|k: int| 0 <= k < i ==> #[trigger] self.user_domains@[k]@ != domain@,
                None => !texts(self.user_domains@).contains(domain@),
            },
    {
        let mut i: usize = 0;
        while i < self.user_domains.len()
            invariant
                i <= self.user_domains@.len(),
                forall|k: int| 0 <= k < i ==> #[trigger] self.user_domains@[k]@ != domain@,
            decreases self.user_domains@.len() - i,
        {
            if self.user_domains[i] == *domain {
                return Some(i);
            }
            i = i + 1;
        }
        proof {
            if texts(self.user_domains@).contains(domain@) {
                let k = choose|k: int|
                    0 <= k < texts(self.user_domains@).len() && texts(self.user_domains@)[k]
                        == domain@;
                assert(self.user_domains@[k]@ == domain@);
            }
        }
        None
    }

    /// Adds `domain` to the intercepted domains, unless it is there.
    pub fn add_proxy_domain(&mut self, domain: String) -> (r: String)
        requires
            old(self).wf(),
        ensures
            final(self).wf(),
            if texts(old(self).user_domains@).contains(domain@) {
                &&& final(self).user_domains == old(self).user_domains
                &&& r@ == "Domain '"@ + domain@ + "' already exists"@
            } else {
                &&& final(self).user_domains@ == old(self).user_domains@.push(domain)
                &&& r@ == "Domain '"@ + domain@ + "' added successfully"@
            },
            final(self).server == old(self).server,
            final(self).port == old(self).port,
            final(self).logs == old(self).logs,
            final(self).running == old(self).running,
    {
        match self.domain_position(&domain) {
            Some(i) => {
                assert(texts(self.user_domains@)[i as int] == domain@);
                quoted_message("Domain '", &domain, "' already exists")
            },
            None => {
                let m = quoted_message("Domain '", &domain, "' added successfully");
                let ghost before = self.user_domains@;
                self.user_domains.push(domain);
                proof {
                    let t = texts(self.user_domains@);
                    assert(t =~= texts(before).push(self.user_domains@.last()@));
                    assert forall|i: int, j: int|
                        0 <= i < t.len() && 0 <= j < t.len() && i != j implies t[i] != t[j] by {
                        if i < before.len() && j < before.len() {
                            assert(t[i] == texts(before)[i] && t[j] == texts(before)[j]);
                        } else if i < before.len() {
                            assert(t[i] == texts(before)[i]);
                            assert(texts(before).contains(t[i]));
                        } else if j < before.len() {
                            assert(t[j] == texts(before)[j]);
                            assert(texts(before).contains(t[j]));
                        }
                    }
                }
                m
            },
        }
    }

    /// Removes `domain` from the intercepted domains, if it is there.
    pub fn remove_proxy_domain(&mut self, domain: String) -> (r: String)
        requires
            old(self).wf(),
        ensures
            final(self).wf(),
            if texts(old(self).user_domains@).contains(domain@) {
                &&& texts(final(self).user_domains@) == texts(old(self).user_domains@).remove(
                    texts(old(self).user_domains@).index_of(domain@),
                )
                &&& !texts(final(self).user_domains@).contains(domain@)
                &&& r@ == "Domain '"@ + domain@ + "' removed successfully"@
            } else {
                &&& final(self).user_domains == old(self).user_domains
                &&& r@ == "Domain '"@ + domain@ + "' not found"@
            },
            final(self).server == old(self).server,
            final(self).port == old(self).port,
            final(self).logs == old(self).logs,
            final(self).running == old(self).running,
    {
        match self.domain_position(&domain) {
            Some(i) => {
                let ghost before = self.user_domains@;
                let ghost tb = texts(before);
                proof {
                    assert(tb[i as int] == domain@);
                    assert forall|k: int| 0 <= k < i implies tb[k] != domain@ by {
                        assert(tb[k] == before[k]@);
                    }
                    assert(tb.index_of(domain@) == i) by {
                        assert(tb.contains(domain@));
                        let f = tb.index_of(domain@);
                        assert(tb[f] == domain@);
                        if f < i {
                            assert(tb[f] == before[f]@);
                        }
                        if f > i {
                            assert(tb[i as int] == domain@);
                        }
                    }
                }
                self.user_domains.remove(i);
                proof {
                    let t = texts(self.user_domains@);
                    assert(t =~= tb.remove(i as int));
                    assert forall|a: int, b: int|
                        0 <= a < t.len() && 0 <= b < t.len() && a != b implies t[a] != t[b] by {
                        let a0 = if a < i {
                            a
                        } else {
                            a + 1
                        };
                        let b0 = if b < i {
                            b
                        } else {
                            b + 1
                        };
                        assert(t[a] == tb[a0] && t[b] == tb[b0]);
                    }
                    if t.contains(domain@) {
                        let k = choose|k: int| 0 <= k < t.len() && t[k] == domain@;
                        let k0 = if k < i {
                            k
                        } else {
                            k + 1
                        };
                        assert(t[k] == tb[k0]);
                        assert(tb[i as int] == domain@);
                    }
                }
                quoted_message("Domain '", &domain, "' removed successfully")
            },
            None => quoted_message("Domain '", &domain, "' not found"),
        }
    }

    /// Starts intercepting the default domains when none is configured;
    /// returns the intercepted domains.
    pub fn initialize_user_domains_if_empty(&mut self) -> (r: Vec<String>)
        requires
            old(self).wf(),
        ensures
            final(self).wf(),
            old(self).user_domains@.len() == 0 ==> texts(final(self).user_domains@)
                == default_domains(),
            old(self).user_domains@.len() != 0 ==> final(self).user_domains == old(
                self,
            ).user_domains,
            texts(r@) == texts(final(self).user_domains@),
            final(self).server == old(self).server,
            final(self).port == old(self).port,
            final(self).logs == old(self).logs,
            final(self).running == old(self).running,
    {
        if self.user_domains.len() == 0 {
            self.user_domains = default_proxy_domains();
            proof {
                lemma_default_domains_distinct();
            }
        }
        self.user_domains.clone()
    }

    /// The default domains followed by the configured ones.
    pub fn get_all_proxy_domains(&self) -> (r: Vec<String>)
        ensures
            texts(r@) == default_domains() + texts(self.user_domains@),
    {
        let mut r = default_proxy_domains();
        let ghost d = r@;
        let mut i: usize = 0;
        while i < self.user_domains.len()
            invariant
                i <= self.user_domains@.len(),
                texts(d) == default_domains(),
                r@ == d + self.user_domains@.subrange(0, i as int),
            decreases self.user_domains@.len() - i,
        {
            r.push(self.user_domains[i].clone());
            i = i + 1;
            assert(r@ =~= d + self.user_domains@.subrange(0, i as int));
        }
        assert(self.user_domains@.subrange(0, i as int) =~= self.user_domains@);
        assert(texts(r@) =~= default_domains() + texts(self.user_domains@));
        r
    }

    /// Whether requests to `uri` are intercepted: it contains one of the
    /// configured domains.
    pub fn should_intercept_uri(&self, uri: &str) -> (r: bool)
        ensures
            r == intercepts(texts(self.user_domains@), uri@),
    {
        let mut i: usize = 0;
        while i < self.user_domains.len()
            invariant
                i <= self.user_domains@.len(),
                forall|k: int| 0 <= k < i ==> !contains_seq(uri@, #[trigger] self.user_domains@[k]@),
            decreases self.user_domains@.len() - i,
        {
            if str_contains(uri, self.user_domains[i].as_str()) {
                assert(texts(self.user_domains@)[i as int] == self.user_domains@[i as int]@);
                return true;
            }
            i = i + 1;
        }
        proof {
            let t = texts(self.user_domains@);
            assert forall|k: int| 0 <= k < t.len() implies !contains_seq(uri@, #[trigger] t[k]) by {
                assert(t[k] == self.user_domains@[k]@);
            }
        }
        false
    }

    /// Where an intercepted request goes: the server followed by the
    /// request's path and query.
    pub fn redirect_uri(&self, path_and_query: &str) -> (r: String)
        ensures
            r@ == self.server@ + path_and_query@,
    {
        let mut r = String::new();
        push_str(&mut r, self.server.as_str());
        push_str(&mut r, path_and_query);
        r
    }

    /// Routes a request: one whose URI contains an intercepted domain is
    /// answered at once when it is a `CONNECT`, else sent to the server with
    /// the same path and query, and the redirection logged.
    pub fn route_request(&mut self, method: &str, uri: &str, path_and_query: &str) -> (r: RequestRoute)
        requires
            old(self).wf(),
        ensures
            final(self).wf(),
            !intercepts(texts(old(self).user_domains@), uri@) ==> r is Pass && *final(self) == *old(
                self,
            ),
            intercepts(texts(old(self).user_domains@), uri@) && method@ == "CONNECT"@ ==> r is AnswerConnect
                && *final(self) == *old(self),
            intercepts(texts(old(self).user_domains@), uri@) && method@ != "CONNECT"@ ==> {
                &&& r matches RequestRoute::Redirect(target) && target@ == old(self).server@
                    + path_and_query@
                &&& exists|e: ProxyLogEntry|
                    #![trigger log_appended(old(self).logs@, e)]
                    e.original_url@ == uri@ && e.redirected_url@ == old(self).server@ + path_and_query@
                        && final(self).logs@ == log_appended(old(self).logs@, e)
                &&& final(self).user_domains == old(self).user_domains
                &&& final(self).server == old(self).server
            },
    {
        if !self.should_intercept_uri(uri) {
            return RequestRoute::Pass;
        }
        if crate::text::str_equal(method, "CONNECT") {
            return RequestRoute::AnswerConnect;
        }
        let target = self.redirect_uri(path_and_query);
        self.log_proxy_redirection(text_of(uri), target.clone());
        RequestRoute::Redirect(target)
    }

    /// Logs a redirection, stamped with the time of day (`HH:MM:SS`); past
    /// 100 entries the oldest is dropped.
    pub fn log_proxy_redirection(&mut self, original_url: String, redirected_url: String)
        requires
            old(self).wf(),
        ensures
            final(self).wf(),
            exists|e: ProxyLogEntry|
                #![trigger log_appended(old(self).logs@, e)]
                e.original_url == original_url && e.redirected_url == redirected_url
                    && time_of_day_shape(e.timestamp@) && final(self).logs@ == log_appended(
                    old(self).logs@,
                    e,
                ),
            final(self).user_domains == old(self).user_domains,
            final(self).server == old(self).server,
            final(self).port == old(self).port,
            final(self).running == old(self).running,
    {
        let e = ProxyLogEntry {
            timestamp: utc_time_of_day_text(),
            original_url,
            redirected_url,
        };
        let ghost ge = e;
        self.logs.push(e);
        if self.logs.len() > MAX_PROXY_LOGS {
            self.logs.remove(0);
        }
        assert(self.logs@ =~= log_appended(old(self).logs@, ge));
    }

    /// The logged redirections, oldest first.
    pub fn get_proxy_logs(&self) -> (r: Vec<ProxyLogEntry>)
        ensures
            r@ == self.logs@,
    {
        let mut r: Vec<ProxyLogEntry> = Vec::new();
        let mut i: usize = 0;
        while i < self.logs.len()
            invariant
                i <= self.logs@.len(),
                r@ == self.logs@.subrange(0, i as int),
            decreases self.logs@.len() - i,
        {
            let e = &self.logs[i];
            r.push(
                ProxyLogEntry {
                    timestamp: e.timestamp.clone(),
                    original_url: e.original_url.clone(),
                    redirected_url: e.redirected_url.clone(),
                },
            );
            i = i + 1;
            assert(r@ =~= self.logs@.subrange(0, i as int));
        }
        r
    }

    /// Empties the log.
    pub fn clear_proxy_logs(&mut self) -> (r: String)
        requires
            old(self).wf(),
        ensures
            final(self).wf(),
            final(self).logs@.len() == 0,
            r@ == "Proxy logs cleared successfully"@,
            final(self).user_domains == old(self).user_domains,
            final(self).server == old(self).server,
            final(self).port == old(self).port,
            final(self).running == old(self).running,
    {
        self.logs.clear();
        text_of("Proxy logs cleared successfully")
    }

    /// Records that the proxy runs (a running one is restarted by the
    /// caller first) and reports its port.
    pub fn start_proxy(&mut self) -> (r: String)
        requires
            old(self).wf(),
        ensures
            final(self).wf(),
            *final(self) == (ProxyConfig { running: true, ..*old(self) }),
            r@ == "Proxy started successfully on port "@ + decimal(old(self).port as nat),
    {
        self.running = true;
        let mut m = String::new();
        push_str(&mut m, "Proxy started successfully on port ");
        push_decimal(&mut m, self.port as u64);
        m
    }

    /// Records that the proxy stopped; refused when it does not run.
    pub fn stop_proxy(&mut self) -> (r: Result<String, String>)
        requires
            old(self).wf(),
        ensures
            final(self).wf(),
            *final(self) == (ProxyConfig { running: false, ..*old(self) }),
            old(self).running ==> (r matches Ok(m) && m@ == "Proxy stopped successfully"@),
            !old(self).running ==> (r matches Err(m) && m@ == "Proxy is not running"@),
    {
        if self.running {
            self.running = false;
            Ok(text_of("Proxy stopped successfully"))
        } else {
            Err(text_of("Proxy is not running"))
        }
    }

    /// Records that the proxy stopped, whether or not it ran.
    pub fn force_stop_proxy(&mut self) -> (r: String)
        requires
            old(self).wf(),
        ensures
            final(self).wf(),
            *final(self) == (ProxyConfig { running: false, ..*old(self) }),
            old(self).running ==> r@ == "Proxy force stopped successfully"@,
            !old(self).running ==> r@ == "Proxy was not running"@,
    {
        if self.running {
            self.running = false;
            text_of("Proxy force stopped successfully")
        } else {
            text_of("Proxy was not running")
        }
    }
}

/// The shell script that adds the certificate at `cert_path` to the
/// trusted roots of the common Linux distributions.
pub fn ca_install_script(cert_path: &str) -> (r: String)
    ensures
        r@ == "#!/bin/bash\n\nset -e\n\nif [ -d /etc/ca-certificates/trust-source/anchors ]; then\n  # Arch, Manjaro, etc.\n  cp "@
            + cert_path@
            + " /etc/ca-certificates/trust-source/anchors/yuukips-ca.crt\n  trust extract-compat\nelif [ -d /usr/local/share/ca-certificates ]; then\n  # Debian, Ubuntu, etc.\n  cp "@
            + cert_path@
            + " /usr/local/share/ca-certificates/yuukips-ca.crt\n  update-ca-certificates\nelif [ -d /etc/pki/ca-trust/source/anchors ]; then\n  # Fedora, RHEL, etc.\n  cp "@
            + cert_path@ + " /etc/pki/ca-trust/source/anchors/yuukips-ca.crt\n  update-ca-trust\nfi\n"@,
{
    let mut r = String::new();
    push_str(
        &mut r,
        "#!/bin/bash\n\nset -e\n\nif [ -d /etc/ca-certificates/trust-source/anchors ]; then\n  # Arch, Manjaro, etc.\n  cp ",
    );
    push_str(&mut r, cert_path);
    push_str(
        &mut r,
        " /etc/ca-certificates/trust-source/anchors/yuukips-ca.crt\n  trust extract-compat\nelif [ -d /usr/local/share/ca-certificates ]; then\n  # Debian, Ubuntu, etc.\n  cp ",
    );
    push_str(&mut r, cert_path);
    push_str(
        &mut r,
        " /usr/local/share/ca-certificates/yuukips-ca.crt\n  update-ca-certificates\nelif [ -d /etc/pki/ca-trust/source/anchors ]; then\n  # Fedora, RHEL, etc.\n  cp ",
    );
    push_str(&mut r, cert_path);
    push_str(&mut r, " /etc/pki/ca-trust/source/anchors/yuukips-ca.crt\n  update-ca-trust\nfi\n");
    r
}

} // verus!
