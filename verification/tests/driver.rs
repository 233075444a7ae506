//! Tests of the conformance driver and the in-process reference backend.

use rwcst::AppImpl;
use rwcst::Info;
use rwcst::LocalClientImpl;
use rwcst::Package;
use rwcst::RemoteClientImpl;
use rwcst::RunError;
use rwcst::Signature;
use rwcst::check_step;
use rwcst::dummy::App;
use rwcst::dummy::LocalClient;
use rwcst::dummy::RemoteClient;
use rwcst::info::InfoMutation;
use rwcst::run;

#[test]
fn reference_backend_passes_the_conformance_run() {
    let local_client = LocalClient::new();
    let remote_client = RemoteClient::new("mock://remote");
    let app = App::new(remote_client);
    assert!(run(local_client, app).is_ok());
}

#[test]
fn process_steps_the_status_through_the_fixture() {
    let mut app = App::new(RemoteClient::new("mock://remote"));
    assert_eq!(app.info, Info::default());

    // call 0: the remote has no update, the status stays default.
    app.process().unwrap();
    assert_eq!(app.info, Info::default());

    // call 1: a validly signed package carrying version "0.0.2".
    app.process().unwrap();
    assert_eq!(app.info.current_version, "0.0.2");
    assert_eq!(app.info.count_invalid_packages, 0);

    // calls 2 and 3: the same package with a signature that fails.
    app.process().unwrap();
    assert_eq!(app.info.current_version, "0.0.2");
    assert_eq!(app.info.count_invalid_packages, 1);

    app.process().unwrap();
    assert_eq!(app.info.current_version, "0.0.2");
    assert_eq!(app.info.count_invalid_packages, 2);
}

#[test]
fn mock_remote_serves_the_fixture_sequence() {
    let mut remote = RemoteClient::new("mock://remote");
    assert!(remote.fetch_package().unwrap().is_none());

    let (pkg, sig) = remote.fetch_package().unwrap().unwrap();
    assert_eq!(pkg.version, "0.0.2");
    assert_eq!(pkg.product_uid, "fooobarrr");
    assert!(sig.validate(&pkg));

    let (pkg2, sig2) = remote.fetch_package().unwrap().unwrap();
    assert!(!sig2.validate(&pkg2));

    let (pkg3, sig3) = remote.fetch_package().unwrap().unwrap();
    assert!(!sig3.validate(&pkg3));
}

#[test]
fn canned_local_client_reports_the_fixture_sequence() {
    let mut client = LocalClient::new();
    assert_eq!(client.fetch_info().unwrap(), Info::default());
    assert_eq!(client.fetch_info().unwrap(), Info::default());
    let expected = |version: &str, count: u32| Info {
        current_version: String::from(version),
        count_invalid_packages: count,
    };
    assert_eq!(client.fetch_info().unwrap(), expected("0.0.2", 0));
    assert_eq!(client.fetch_info().unwrap(), expected("0.0.2", 1));
    assert_eq!(client.fetch_info().unwrap(), expected("0.0.2", 2));
}

#[test]
fn map_info_applies_exactly_one_mutation() {
    let mut app = App::new(RemoteClient::new("mock://remote"));
    app.map_info(InfoMutation::SetVersion(String::from("9.9.9"))).unwrap();
    assert_eq!(app.info.current_version, "9.9.9");
    assert_eq!(app.info.count_invalid_packages, 0);
    app.map_info(InfoMutation::RecordInvalid).unwrap();
    assert_eq!(app.info.current_version, "9.9.9");
    assert_eq!(app.info.count_invalid_packages, 1);
}

#[test]
fn check_step_matches_the_fixture_table() {
    let default = Info::default();
    assert!(check_step(0, &default));
    assert!(check_step(1, &default));
    assert!(!check_step(2, &default));
    let bumped = Info { current_version: String::from("0.0.2"), count_invalid_packages: 1 };
    assert!(!check_step(2, &bumped));
    assert!(check_step(3, &bumped));
    assert!(!check_step(4, &bumped));
}

struct StuckClient {
    inner: LocalClient,
}

impl LocalClientImpl for StuckClient {
    type Err = ();

    // The ghost invariant; never evaluated at runtime.
    fn inv(&self) -> bool {
        true
    }

    fn new() -> Self {
        StuckClient { inner: LocalClient::new() }
    }

    fn fetch_info(&mut self) -> Result<Info, ()> {
        let _ = self.inner.fetch_info();
        Ok(Info::default())
    }
}

#[test]
fn run_reports_the_first_mismatching_step() {
    // A status client that always observes the default status diverges from
    // the fixture at step 2, where the version bump should be visible.
    let app = App::new(RemoteClient::new("mock://remote"));
    match run(StuckClient::new(), app) {
        Err(RunError::Mismatch { step, expected, got }) => {
            assert_eq!(step, 2);
            assert_eq!(expected.current_version, "0.0.2");
            assert_eq!(got, Info::default());
        },
        other => panic!("expected a mismatch at step 2, got {:?}", other),
    }
}

struct FailingRemote;

impl RemoteClientImpl for FailingRemote {
    type Err = ();

    // The ghost invariant; never evaluated at runtime.
    fn inv(&self) -> bool {
        true
    }

    fn new(_url: &str) -> Self {
        FailingRemote
    }

    fn fetch_package(&mut self) -> Result<Option<(Package, Signature)>, ()> {
        Err(())
    }
}

struct FailingApp {
    info: Info,
    client: FailingRemote,
}

impl AppImpl for FailingApp {
    type RemoteClient = FailingRemote;
    type Err = ();

    // The ghost invariant and status model; never evaluated at runtime.
    fn inv(&self) -> bool {
        true
    }

    fn info_view(&self) -> rwcst::InfoView {
        panic!("ghost function")
    }

    fn new(client: FailingRemote) -> Self {
        FailingApp { info: Info::default(), client }
    }

    fn serve(&mut self) -> Result<(), ()> {
        Ok(())
    }

    fn map_info(&mut self, m: InfoMutation) -> Result<(), ()> {
        match m {
            InfoMutation::SetVersion(v) => self.info.current_version = v,
            InfoMutation::RecordInvalid => {
                self.info.count_invalid_packages += 1;
            },
        }
        Ok(())
    }

    fn fetch_update(&mut self) -> Result<Option<(Package, Signature)>, ()> {
        self.client.fetch_package()
    }
}

struct FailingClient;

impl LocalClientImpl for FailingClient {
    type Err = ();

    // The ghost invariant; never evaluated at runtime.
    fn inv(&self) -> bool {
        true
    }

    fn new() -> Self {
        FailingClient
    }

    fn fetch_info(&mut self) -> Result<Info, ()> {
        Err(())
    }
}

#[test]
fn run_surfaces_a_status_client_failure_as_an_error() {
    let app = App::new(RemoteClient::new("mock://remote"));
    match run(FailingClient::new(), app) {
        Err(RunError::Client(())) => {},
        other => panic!("expected a status-client error, got {:?}", other),
    }
}

#[test]
fn run_surfaces_a_transport_failure_as_an_error() {
    // A remote fetch failure is a hard error for the run, not "no update".
    let client = LocalClient::new();
    let app = FailingApp::new(FailingRemote::new("mock://remote"));
    match run(client, app) {
        Err(RunError::App(())) => {},
        other => panic!("expected an application error, got {:?}", other),
    }
}
