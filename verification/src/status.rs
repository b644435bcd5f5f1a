//! The latest known state of each monitored service.

use vstd::prelude::*;

verus! {

/// A moment in time: whole seconds since the Unix epoch, and the
/// nanoseconds into that second.
#[derive(Clone, Copy, Debug, PartialEq, Eq, Structural)]
pub struct Timestamp {
    pub secs: i64,
    pub nanos: u32,
}

/// The moment of the call, read from the system clock and taken apart by
/// `chrono`: its `DateTime<Utc>` made from `std::time::SystemTime::now()`,
/// then `timestamp()` and `timestamp_subsec_nanos()`. Nothing is claimed of
/// the value.
#[verifier::external_body]
pub(crate) fn current_time() -> (t: Timestamp) {
    let now = chrono::DateTime::<chrono::Utc>::from(std::time::SystemTime::now());
    Timestamp { secs: now.timestamp(), nanos: now.timestamp_subsec_nanos() }
}

/// What the last probe of one service found.
#[derive(Debug, PartialEq, Eq)]
pub struct Status {
    /// Whether the service answered.
    pub up: bool,
    /// When the probe finished.
    pub last: Timestamp,
    /// Why the probe counts as failed, or a remark on a probe that passed;
    /// empty when there is nothing to say.
    pub failure_reason: String,
}

impl Clone for Status {
    fn clone(&self) -> (r: Self)
        ensures
            r == *self,
    {
        Status { up: self.up, last: self.last, failure_reason: self.failure_reason.clone() }
    }
}

/// The services whose state is kept.
#[derive(Clone, Copy, Debug, PartialEq, Eq, Structural)]
pub enum Service {
    BindDns,
    AdDns,
    Smtp,
    Pop3,
    Ecom,
    Splunk,
}

/// The latest status of every service. A writer replaces one entry at a
/// time with `set`; readers take a copy of the whole with `get`.
#[derive(Debug, PartialEq, Eq)]
pub struct ServiceStatus {
    bind_dns: Status,
    ad_dns: Status,
    smtp: Status,
    pop3: Status,
    ecom: Status,
    splunk: Status,
}

impl View for ServiceStatus {
    type V = Map<Service, Status>;

    /// The entries as a total map from service to status.
    closed spec fn view(&self) -> Map<Service, Status> {
        Map::new(
            |s: Service| true,
            |s: Service|
                match s {
                    Service::BindDns => self.bind_dns,
                    Service::AdDns => self.ad_dns,
                    Service::Smtp => self.smtp,
                    Service::Pop3 => self.pop3,
                    Service::Ecom => self.ecom,
                    Service::Splunk => self.splunk,
                },
        )
    }
}

impl ServiceStatus {
    /// A store in which every service has the status `initial`.
    pub fn new(initial: Status) -> (r: Self)
        ensures
            r@ == Map::new(|s: Service| true, |s: Service| initial),
    {
        let r = ServiceStatus {
            bind_dns: initial.clone(),
            ad_dns: initial.clone(),
            smtp: initial.clone(),
            pop3: initial.clone(),
            ecom: initial.clone(),
            splunk: initial,
        };
        assert(r@ =~= Map::new(|s: Service| true, |s: Service| initial));
        r
    }

    /// Replaces the entry of `service` and leaves every other entry as it
    /// was.
    pub fn set(&mut self, service: Service, status: Status)
        ensures
            final(self)@ == old(self)@.insert(service, status),
    {
        match service {
            Service::BindDns => self.bind_dns = status,
            Service::AdDns => self.ad_dns = status,
            Service::Smtp => self.smtp = status,
            Service::Pop3 => self.pop3 = status,
            Service::Ecom => self.ecom = status,
            Service::Splunk => self.splunk = status,
        }
        assert(self@ =~= old(self)@.insert(service, status));
    }

    /// A copy of all entries, which later writes to the store do not reach.
    pub fn get(&self) -> (snapshot: Self)
        ensures
            snapshot@ == self@,
    {
        let snapshot = ServiceStatus {
            bind_dns: self.bind_dns.clone(),
            ad_dns: self.ad_dns.clone(),
            smtp: self.smtp.clone(),
            pop3: self.pop3.clone(),
            ecom: self.ecom.clone(),
            splunk: self.splunk.clone(),
        };
        assert(snapshot@ =~= self@);
        snapshot
    }

    /// The entry of `service`.
    pub fn entry(&self, service: Service) -> (status: &Status)
        ensures
            *status == self@[service],
    {
        match service {
            Service::BindDns => &self.bind_dns,
            Service::AdDns => &self.ad_dns,
            Service::Smtp => &self.smtp,
            Service::Pop3 => &self.pop3,
            Service::Ecom => &self.ecom,
            Service::Splunk => &self.splunk,
        }
    }
}

impl Service {
    /// The name under which the service's status is published.
    pub open spec fn name_text(self) -> Seq<char> {
        match self {
            Service::BindDns => "bind_dns"@,
            Service::AdDns => "ad_dns"@,
            Service::Smtp => "smtp"@,
            Service::Pop3 => "pop3"@,
            Service::Ecom => "ecom"@,
            Service::Splunk => "splunk"@,
        }
    }

    /// The name under which the service's status is published.
    pub fn name(self) -> (name: &'static str)
        ensures
            name@ == self.name_text(),
    {
        match self {
            Service::BindDns => "bind_dns",
            Service::AdDns => "ad_dns",
            Service::Smtp => "smtp",
            Service::Pop3 => "pop3",
            Service::Ecom => "ecom",
            Service::Splunk => "splunk",
        }
    }

    /// The service of that name, if there is one.
    pub fn from_name(name: &str) -> (service: Option<Service>)
        ensures
            match service {
                Some(s) => s.name_text() == name@,
                None => forall|s: Service| s.name_text() != name@,
            },
    {
        let name = name.to_owned();
        if name == Service::BindDns.name().to_owned() {
            Some(Service::BindDns)
        } else if name == Service::AdDns.name().to_owned() {
            Some(Service::AdDns)
        } else if name == Service::Smtp.name().to_owned() {
            Some(Service::Smtp)
        } else if name == Service::Pop3.name().to_owned() {
            Some(Service::Pop3)
        } else if name == Service::Ecom.name().to_owned() {
            Some(Service::Ecom)
        } else if name == Service::Splunk.name().to_owned() {
            Some(Service::Splunk)
        } else {
            None
        }
    }
}

/// A read that follows a write finds, for the service written, the status
/// written, and for every other service the status it had before the
/// write. Every service has an entry throughout.
pub proof fn lemma_get_after_set(
    before: ServiceStatus,
    after: ServiceStatus,
    snapshot: ServiceStatus,
    service: Service,
    status: Status,
)
    requires
        after@ == before@.insert(service, status),
        snapshot@ == after@,
    ensures
        snapshot@[service] == status,
        forall|other: Service| other != service ==> #[trigger] snapshot@[other] == before@[other],
        forall|any: Service| #[trigger] snapshot@.dom().contains(any),
{
}

} // verus!
