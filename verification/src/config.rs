//! What a scan is configured with.

use crate::ip_pool::IPAddrPool;
use vstd::prelude::*;
use vstd::string::StringExecFns;

verus! {

/// A name server to probe, and the answer it is to give.
#[derive(Debug)]
pub struct DNSConfig {
    /// The server's address, as text.
    pub ip: String,
    /// The name to look up.
    pub domain: String,
    /// The address that the lookup is to give.
    pub response: u32,
}

/// A web server to probe, and the answer it is to give.
#[derive(Debug)]
pub struct HTTPConfig {
    /// The server's address, as it stands in a URL.
    pub ip: String,
    pub port: u16,
    /// The path to ask for, starting with `/`.
    pub path: String,
    /// A text that marks the right answer. The probe carries it along and
    /// does not look for it: a service that answers counts as up.
    pub response: String,
}

/// The whole configuration of a scan.
#[derive(Debug)]
pub struct ScanConfig {
    pub bind_dns: DNSConfig,
    pub ad_dns: DNSConfig,
    pub splunk: HTTPConfig,
    pub ecom: HTTPConfig,
    /// How often, in seconds, the services are scanned.
    pub time: usize,
    /// The pools that source addresses are taken from, one pool per scan,
    /// in turn. With no pool, scans go out from the address that the device
    /// has already.
    pub ip_pools: Vec<IPAddrPool>,
    /// The network device that source addresses are put on.
    pub dev: String,
}

impl Clone for DNSConfig {
    fn clone(&self) -> (r: Self)
        ensures
            r == *self,
    {
        DNSConfig { ip: self.ip.clone(), domain: self.domain.clone(), response: self.response }
    }
}

impl Clone for HTTPConfig {
    fn clone(&self) -> (r: Self)
        ensures
            r == *self,
    {
        HTTPConfig {
            ip: self.ip.clone(),
            port: self.port,
            path: self.path.clone(),
            response: self.response.clone(),
        }
    }
}

impl Clone for ScanConfig {
    fn clone(&self) -> (r: Self)
        ensures
            r.bind_dns == self.bind_dns,
            r.ad_dns == self.ad_dns,
            r.splunk == self.splunk,
            r.ecom == self.ecom,
            r.time == self.time,
            r.ip_pools@ == self.ip_pools@,
            r.dev == self.dev,
    {
        let mut ip_pools: Vec<IPAddrPool> = Vec::new();
        let mut i: usize = 0;
        while i < self.ip_pools.len()
            invariant
                i <= self.ip_pools@.len(),
                ip_pools@ == self.ip_pools@.take(i as int),
            decreases self.ip_pools@.len() - i,
        {
            ip_pools.push(self.ip_pools[i]);
            assert(self.ip_pools@.take(i + 1) =~= self.ip_pools@.take(i as int).push(
                self.ip_pools@[i as int],
            ));
            i = i + 1;
        }
        assert(self.ip_pools@.take(i as int) =~= self.ip_pools@);
        ScanConfig {
            bind_dns: self.bind_dns.clone(),
            ad_dns: self.ad_dns.clone(),
            splunk: self.splunk.clone(),
            ecom: self.ecom.clone(),
            time: self.time,
            ip_pools,
            dev: self.dev.clone(),
        }
    }
}

impl HTTPConfig {
    /// The URL that a probe asks for: `http://`, the address, the path.
    /// The port has no part in it.
    pub open spec fn url_text(self) -> Seq<char> {
        "http://"@ + self.ip@ + self.path@
    }

    /// The URL that a probe asks for.
    pub fn url(&self) -> (url: String)
        ensures
            url@ == self.url_text(),
    {
        let mut url = "http://".to_owned();
        url.append(self.ip.as_str());
        url.append(self.path.as_str());
        url
    }
}

} // verus!
