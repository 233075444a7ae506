//! The role contracts a backend must satisfy, and the conformance driver
//! that exercises them through the canonical fixture sequence.

use vstd::prelude::*;
use vstd::string::StringExecFns;

use crate::info::Info;
use crate::info::InfoMutation;
use crate::info::InfoView;
use crate::info::bump_invalid;
use crate::info::initial_info;
use crate::info::set_version;
use crate::package::Package;
use crate::package::PackageView;
use crate::signature::Signature;
use crate::signature::rsa_sha256_valid;
use crate::signature::spec_verifying_key_pem;

verus! {

/// What one `process` call does to the status, given what the fetch
/// returned: nothing on `None`; on a package paired with a signature,
/// either the package's version is adopted (signature valid) or the invalid
/// count grows by one — never both.
pub open spec fn process_model(i: InfoView, u: Option<(PackageView, Seq<u8>)>) -> InfoView {
    match u {
        None => i,
        Some((p, s)) => if rsa_sha256_valid(spec_verifying_key_pem(), p.raw, s) {
            set_version(i, p.version)
        } else {
            bump_invalid(i)
        },
    }
}

/// The status after one `process` call is the old status stepped by some
/// fetch outcome.
pub open spec fn process_step_allowed(pre: InfoView, post: InfoView) -> bool {
    exists|u: Option<(PackageView, Seq<u8>)>| post == process_model(pre, u)
}

/// A fetched package whose signature validates has its version adopted,
/// and the count of invalid packages stays as it was.
pub proof fn lemma_valid_update_adopts_version(i: InfoView, p: PackageView, s: Seq<u8>)
    requires
        rsa_sha256_valid(spec_verifying_key_pem(), p.raw, s),
    ensures
        process_model(i, Some((p, s))).current_version == p.version,
        process_model(i, Some((p, s))).count_invalid_packages == i.count_invalid_packages,
{
}

/// A fetched package whose signature does not validate leaves the version
/// as it was and grows the invalid count by exactly one, as long as the
/// counter has room.
pub proof fn lemma_invalid_update_counts(i: InfoView, p: PackageView, s: Seq<u8>)
    requires
        !rsa_sha256_valid(spec_verifying_key_pem(), p.raw, s),
        i.count_invalid_packages < u32::MAX,
    ensures
        process_model(i, Some((p, s))).current_version == i.current_version,
        process_model(i, Some((p, s))).count_invalid_packages == i.count_invalid_packages + 1,
{
}

/// A fetch that returned no update leaves the status exactly as it was.
pub proof fn lemma_no_update_is_noop(i: InfoView)
    ensures
        process_model(i, None) == i,
{
}

/// A status-query client: an external observer reading the status the
/// application exposes.
pub trait LocalClientImpl: Sized {
    type Err;

    /// The invariant the client keeps between calls.
    spec fn inv(&self) -> bool;

    fn new() -> (r: Self)
        ensures
            r.inv(),
    ;

    /// Read the application's current status.
    fn fetch_info(&mut self) -> (r: Result<Info, Self::Err>)
        requires
            old(self).inv(),
        ensures
            final(self).inv(),
    ;
}

/// A remote-update client: polls an external source for a package paired
/// with its signature. `None` means the source has no update, which is not
/// an error.
pub trait RemoteClientImpl: Sized {
    type Err;

    /// The invariant the client keeps between calls.
    spec fn inv(&self) -> bool;

    fn new(url: &str) -> (r: Self)
        ensures
            r.inv(),
    ;

    /// Poll the remote source once.
    fn fetch_package(&mut self) -> (r: Result<Option<(Package, Signature)>, Self::Err>)
        requires
            old(self).inv(),
        ensures
            final(self).inv(),
    ;
}

/// An application: owns one status and one remote-update client, exposes
/// the status to status-query clients, and runs update cycles.
pub trait AppImpl: Sized {
    type RemoteClient: RemoteClientImpl;

    type Err;

    /// The invariant the application keeps between calls.
    spec fn inv(&self) -> bool;

    /// The status the application currently exposes.
    spec fn info_view(&self) -> InfoView;

    fn new(client: Self::RemoteClient) -> (r: Self)
        requires
            client.inv(),
        ensures
            r.inv(),
            r.info_view() == initial_info(),
    ;

    /// Start exposing the status to status-query clients.
    fn serve(&mut self) -> (r: Result<(), Self::Err>)
        requires
            old(self).inv(),
        ensures
            final(self).inv(),
            final(self).info_view() == old(self).info_view(),
    ;

    /// Apply one exclusive, atomic mutation to the status: afterwards the
    /// status is exactly the mutated old status, or — if the backend
    /// reports an error — exactly the old one, never anything in between.
    fn map_info(&mut self, m: InfoMutation) -> (r: Result<(), Self::Err>)
        requires
            old(self).inv(),
        ensures
            final(self).inv(),
            (r is Ok ==> final(self).info_view() == m.apply(old(self).info_view())),
            (r is Err ==> final(self).info_view() == old(self).info_view()),
    ;

    /// Ask the owned remote-update client for a package; fetching does not
    /// touch the status.
    fn fetch_update(&mut self) -> (r: Result<Option<(Package, Signature)>, Self::Err>)
        requires
            old(self).inv(),
        ensures
            final(self).inv(),
            final(self).info_view() == old(self).info_view(),
    ;

    /// One update cycle: fetch; do nothing if there is no update; otherwise
    /// adopt the package's version if its signature validates, and record
    /// one more invalid package if it does not.
    fn process(&mut self) -> (r: Result<(), Self::Err>)
        requires
            old(self).inv(),
        ensures
            final(self).inv(),
            (r is Ok ==> process_step_allowed(old(self).info_view(), final(self).info_view())),
            (r is Err ==> final(self).info_view() == old(self).info_view()),
    {
        let fetched = match self.fetch_update() {
            Ok(f) => f,
            Err(e) => {
                return Err(e);
            },
        };
        match fetched {
            None => {
                proof {
                    assert(self.info_view() == process_model(old(self).info_view(), None));
                }
                Ok(())
            },
            Some((pkg, sig)) => {
                let ghost pre = old(self).info_view();
                let ghost pv = pkg@;
                let ghost sv = sig@;
                if sig.validate(&pkg) {
                    let r = self.map_info(InfoMutation::SetVersion(pkg.version));
                    proof {
                        if r is Ok {
                            assert(self.info_view() == process_model(pre, Some((pv, sv))));
                        }
                    }
                    r
                } else {
                    let r = self.map_info(InfoMutation::RecordInvalid);
                    proof {
                        if r is Ok {
                            assert(self.info_view() == process_model(pre, Some((pv, sv))));
                        }
                    }
                    r
                }
            },
        }
    }
}

/// The status the canonical fixture expects at a given step: the default
/// twice (nothing, then a fetch with no update), then version `"0.0.2"`
/// adopted, then the invalid count climbing by one per step.
pub open spec fn expected_info(step: int) -> InfoView {
    if step <= 1 {
        initial_info()
    } else if step == 2 {
        InfoView { current_version: "0.0.2"@, count_invalid_packages: 0 }
    } else if step == 3 {
        InfoView { current_version: "0.0.2"@, count_invalid_packages: 1 }
    } else {
        InfoView { current_version: "0.0.2"@, count_invalid_packages: 2 }
    }
}

/// The expected status at a given step, as a value.
fn expected_info_at(step: usize) -> (r: Info)
    requires
        step < 5,
    ensures
        r@ == expected_info(step as int),
{
    if step <= 1 {
        Info::default()
    } else {
        Info {
            current_version: String::from_str("0.0.2"),
            count_invalid_packages: (step - 2) as u32,
        }
    }
}

/// Decide one driver assertion: whether the observed status is exactly what
/// the canonical fixture expects at this step.
pub fn check_step(step: usize, observed: &Info) -> (r: bool)
    requires
        step < 5,
    ensures
        r == (observed@ == expected_info(step as int)),
{
    let expected = expected_info_at(step);
    *observed == expected
}

/// Why a conformance run failed: an error of the status client, an error of
/// the application, or a status that did not match the canonical fixture's
/// expectation at some step.
#[derive(Debug)]
pub enum RunError<CE, AE> {
    Client(CE),
    App(AE),
    Mismatch { step: usize, expected: Info, got: Info },
}

/// Drive a backend through the canonical fixture: start serving, then five
/// status reads, with a `process` call before each read but the first. A
/// status that differs from the fixture's expectation stops the run with a
/// `Mismatch` naming the step; an error of the backend stops it too and is
/// passed through.
pub fn run<C: LocalClientImpl, A: AppImpl>(client: C, app: A) -> (r: Result<
    (),
    RunError<C::Err, A::Err>,
>)
    requires
        client.inv(),
        app.inv(),
    ensures
        (r matches Err(RunError::Mismatch { step, expected, got }) ==> step < 5 && expected@
            == expected_info(step as int) && got@ != expected_info(step as int)),
{
    let mut client = client;
    let mut app = app;
    match app.serve() {
        Ok(_) => {},
        Err(e) => {
            return Err(RunError::App(e));
        },
    }
    let mut step: usize = 0;
    while step < 5
        invariant
            client.inv(),
            app.inv(),
            step <= 5,
        decreases 5 - step,
    {
        if step > 0 {
            match app.process() {
                Ok(_) => {},
                Err(e) => {
                    return Err(RunError::App(e));
                },
            }
        }
        let info = match client.fetch_info() {
            Ok(i) => i,
            Err(e) => {
                return Err(RunError::Client(e));
            },
        };
        if !check_step(step, &info) {
            let expected = expected_info_at(step);
            return Err(RunError::Mismatch { step, expected, got: info });
        }
        step = step + 1;
    }
    Ok(())
}

/// The canonical fixture progression: from the default status, processing
/// no update, then a validly signed package carrying version `"0.0.2"`,
/// then twice the same package with a signature that does not validate,
/// steps the status through exactly the expected table.
pub proof fn lemma_canonical_fixture_progression(p: PackageView, good: Seq<u8>, bad: Seq<u8>)
    requires
        p.version == "0.0.2"@,
        rsa_sha256_valid(spec_verifying_key_pem(), p.raw, good),
        !rsa_sha256_valid(spec_verifying_key_pem(), p.raw, bad),
    ensures
        ({
            let i0 = initial_info();
            let i1 = process_model(i0, None);
            let i2 = process_model(i1, Some((p, good)));
            let i3 = process_model(i2, Some((p, bad)));
            let i4 = process_model(i3, Some((p, bad)));
            i0 == expected_info(0) && i1 == expected_info(1) && i2 == expected_info(2) && i3
                == expected_info(3) && i4 == expected_info(4)
        }),
{
}

} // verus!
