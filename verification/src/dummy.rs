//! The in-process reference backend: a status-query client answering with a
//! canned sequence, a mock remote source serving the canonical fixture
//! responses by call count, and an application holding its status directly.

use vstd::prelude::*;
use vstd::string::StringExecFns;

use crate::driver::AppImpl;
use crate::driver::LocalClientImpl;
use crate::driver::RemoteClientImpl;
use crate::info::Info;
use crate::info::InfoMutation;
use crate::info::InfoView;
use crate::info::initial_info;
use crate::package::Package;
use crate::package::default_package_view;
use crate::package::lemma_default_payload_parses;
use crate::signature::Signature;
use crate::signature::base64_decoding;
use crate::signature::base64_input_oversized;
use crate::signature::spec_invalid_sample;
use crate::signature::spec_valid_sample;

verus! {

/// A status-query client that reports the canonical fixture's expected
/// status for each step, counting its own calls.
pub struct LocalClient {
    pub requests: u32,
}

/// A remote-update client that serves the canonical fixture sequence from
/// its own call count, with no remote source behind it.
pub struct RemoteClient {
    pub requests: u32,
}

/// An application that owns its status directly; exposing it needs no
/// transport, so serving is a no-op.
pub struct App {
    pub info: Info,
    pub client: RemoteClient,
}

/// A counter of calls, stuck at its maximum rather than wrapping.
pub open spec fn saturating_inc(n: u32) -> u32 {
    if n < u32::MAX {
        (n + 1) as u32
    } else {
        u32::MAX
    }
}

/// The status the canned client reports on its `n`th call (counting from
/// zero): the default twice, then version `"0.0.2"` with `n - 2` invalid
/// packages.
pub open spec fn canned_info(n: u32) -> InfoView {
    if n <= 1 {
        initial_info()
    } else {
        InfoView { current_version: "0.0.2"@, count_invalid_packages: (n - 2) as u32 }
    }
}

/// The mock's non-empty response: the canonical package, paired with the
/// signature decoded from the given base64 sample; an error exactly where
/// the sample does not decode.
pub open spec fn fixture_response(
    r: Result<Option<(Package, Signature)>, ()>,
    sample: Seq<char>,
) -> bool {
    match r {
        Ok(Some((p, s))) => p@ == default_package_view() && base64_decoding(sample) == Some(s@),
        Ok(None) => false,
        Err(_) => base64_decoding(sample) is None || base64_input_oversized(sample),
    }
}

impl LocalClientImpl for LocalClient {
    type Err = ();

    open spec fn inv(&self) -> bool {
        true
    }

    fn new() -> (r: Self)
        ensures
            r.requests == 0,
    {
        LocalClient { requests: 0 }
    }

    fn fetch_info(&mut self) -> (r: Result<Info, ()>)
        ensures
            final(self).requests == saturating_inc(old(self).requests),
            r matches Ok(i) && i@ == canned_info(old(self).requests),
    {
        let res = if self.requests <= 1 {
            Info::default()
        } else {
            Info {
                current_version: String::from_str("0.0.2"),
                count_invalid_packages: self.requests - 2,
            }
        };
        if self.requests < u32::MAX {
            self.requests = self.requests + 1;
        }
        Ok(res)
    }
}

impl RemoteClientImpl for RemoteClient {
    type Err = ();

    open spec fn inv(&self) -> bool {
        true
    }

    fn new(_url: &str) -> (r: Self)
        ensures
            r.requests == 0,
    {
        RemoteClient { requests: 0 }
    }

    fn fetch_package(&mut self) -> (r: Result<Option<(Package, Signature)>, ()>)
        ensures
            final(self).requests == saturating_inc(old(self).requests),
            old(self).requests == 0 ==> r matches Ok(None),
            old(self).requests == 1 ==> fixture_response(r, spec_valid_sample()),
            old(self).requests >= 2 ==> fixture_response(r, spec_invalid_sample()),
    {
        let out: Result<Option<(Package, Signature)>, ()> = if self.requests == 0 {
            Ok(None)
        } else {
            let sample = if self.requests == 1 {
                Signature::valid_sample()
            } else {
                Signature::invalid_sample()
            };
            match Signature::from_str(sample) {
                None => Err(()),
                Some(sig) => {
                    let def = Package::default();
                    proof {
                        // The parse below cannot fail, and hands back
                        // exactly the canonical package.
                        lemma_default_payload_parses();
                    }
                    match Package::parse(def.raw.as_slice()) {
                        Ok(pkg) => Ok(Some((pkg, sig))),
                        Err(_) => Err(()),
                    }
                },
            }
        };
        if self.requests < u32::MAX {
            self.requests = self.requests + 1;
        }
        proof {
            // Settles the trait's postcondition on the invariant, which does
            // not resolve to this impl's trivial body on its own.
            assert(self.inv());
        }
        out
    }
}

impl AppImpl for App {
    type RemoteClient = RemoteClient;

    type Err = ();

    open spec fn inv(&self) -> bool {
        true
    }

    open spec fn info_view(&self) -> InfoView {
        self.info@
    }

    fn new(client: RemoteClient) -> (r: Self)
        ensures
            r.client == client,
    {
        App { info: Info::default(), client }
    }

    fn serve(&mut self) -> (r: Result<(), ()>)
        ensures
            r is Ok,
            final(self).client == old(self).client,
    {
        Ok(())
    }

    fn map_info(&mut self, m: InfoMutation) -> (r: Result<(), ()>)
        ensures
            r is Ok,
            final(self).client == old(self).client,
    {
        match m {
            InfoMutation::SetVersion(v) => {
                self.info.current_version = v;
            },
            InfoMutation::RecordInvalid => {
                if self.info.count_invalid_packages < u32::MAX {
                    self.info.count_invalid_packages = self.info.count_invalid_packages + 1;
                }
            },
        }
        Ok(())
    }

    fn fetch_update(&mut self) -> (r: Result<Option<(Package, Signature)>, ()>)
        ensures
            final(self).client.requests == saturating_inc(old(self).client.requests),
            old(self).client.requests == 0 ==> r matches Ok(None),
            old(self).client.requests == 1 ==> fixture_response(r, spec_valid_sample()),
            old(self).client.requests >= 2 ==> fixture_response(r, spec_invalid_sample()),
    {
        self.client.fetch_package()
    }
}

} // verus!
