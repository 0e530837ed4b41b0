use dx_build::build_state::{
    claim_request, now_ms, receipt_file, valid_identity, Action, Event, Failure, Journal, Request,
    Requested, State, Status, VERSION,
};
use dx_build::publication::Attempt;
use std::collections::BTreeMap;

/// The journal's directory, kept in memory.
struct Files {
    request: Option<Request>,
    receipts: Option<BTreeMap<String, State>>,
    state: Option<State>,
    /// The operation that fails, if any.
    broken: Option<Action>,
    now: u128,
    log: Vec<Action>,
}

impl Files {
    fn new() -> Self {
        Files {
            request: None,
            receipts: None,
            state: None,
            broken: None,
            now: 1000,
            log: vec![],
        }
    }

    fn ask(&mut self, request: &str) {
        self.request = Some(Request {
            version: VERSION,
            request: request.to_string(),
            created_at_ms: 1,
        });
    }

    fn receipt(&self, name: &str) -> Option<&State> {
        self.receipts.as_ref().and_then(|receipts| receipts.get(name))
    }

    fn published(&self) -> &State {
        self.state.as_ref().unwrap()
    }

    fn perform(&mut self, action: Action, journal: &Journal) -> Event {
        self.log.push(action);
        if self.broken == Some(action) {
            return match action {
                Action::ReadClock => Event::Clock(None),
                Action::ReadRequest => Event::Requested(Requested::Unreadable),
                _ => Event::Attempted(Attempt::Failed),
            };
        }
        match action {
            Action::ReadClock => {
                self.now += 1;
                Event::Clock(Some(self.now))
            }
            Action::ReadRequest => Event::Requested(match &self.request {
                Some(request) => Requested::Decoded(request.clone()),
                None => Requested::Absent,
            }),
            Action::ClearReceipts => Event::Attempted(match self.receipts.take() {
                Some(_) => Attempt::Done,
                None => Attempt::Missing,
            }),
            Action::RemoveRequest => Event::Attempted(match self.request.take() {
                Some(_) => Attempt::Done,
                None => Attempt::Missing,
            }),
            Action::CreateReceipts => {
                if self.receipts.is_none() {
                    self.receipts = Some(BTreeMap::new());
                }
                Event::Attempted(Attempt::Done)
            }
            Action::WriteReceipt => {
                let state = journal.state().clone();
                let name = receipt_file(state.request.as_ref().unwrap());
                self.receipts.as_mut().unwrap().insert(name, state);
                Event::Attempted(Attempt::Done)
            }
            Action::WriteState => {
                self.state = Some(journal.state().clone());
                Event::Attempted(Attempt::Done)
            }
            Action::CreateDirectory => Event::Attempted(Attempt::Done),
            Action::Nothing => panic!("nothing is due"),
        }
    }

    fn settle(&mut self, journal: &mut Journal) -> Result<(), Failure> {
        while journal.action() != Action::Nothing {
            let event = self.perform(journal.action(), journal);
            journal.resume(event)?;
        }
        Ok(())
    }

    fn open(&mut self) -> Journal {
        let mut journal = Journal::at(true, Some(self.now), 77).unwrap();
        self.settle(&mut journal).unwrap();
        journal
    }

    fn begin(&mut self, journal: &mut Journal) -> Result<(), Failure> {
        journal.begin_manual();
        self.settle(journal)
    }

    fn served(&mut self, journal: &mut Journal) -> Result<(), Failure> {
        journal.served();
        self.settle(journal)
    }
}

#[test]
fn manual_request_is_claimed_and_settled_atomically() {
    let mut files = Files::new();
    let mut journal = files.open();
    files.ask("request-1");

    files.begin(&mut journal).unwrap();
    let building = files.published().clone();
    assert_eq!(building.request.as_deref(), Some("request-1"));
    assert!(matches!(building.status, Status::Building));
    assert!(files.request.is_none());

    files.served(&mut journal).unwrap();
    let served = files.published().clone();
    assert_eq!(served.generation, building.generation);
    assert_eq!(served.request, building.request);
    assert!(matches!(served.status, Status::Served));
    assert!(served.settled_at_ms.is_some());
    let receipt = files.receipt("request-1.json").unwrap();
    assert!(matches!(receipt.status, Status::Served));
}

#[test]
fn human_supersession_preserves_the_identified_waiters_receipt() {
    let mut files = Files::new();
    let mut journal = files.open();
    files.ask("first");
    files.begin(&mut journal).unwrap();
    // No request file: this is a human pressing r while the identified
    // controller still owns the request lock.
    files.begin(&mut journal).unwrap();

    let state = files.published();
    assert_eq!(state.generation, 2);
    assert!(state.request.is_none());
    let first = files.receipt("first.json").unwrap();
    assert!(matches!(first.status, Status::Superseded));
    assert_eq!(
        first.detail.as_deref(),
        Some("a newer manual rebuild replaced this generation")
    );
    assert_eq!(first.generation, 1);
}

#[test]
fn a_new_identified_request_reaps_an_orphaned_receipt() {
    let mut files = Files::new();
    let mut journal = files.open();
    for request in ["first", "second"] {
        files.ask(request);
        files.begin(&mut journal).unwrap();
        files.served(&mut journal).unwrap();
    }
    assert!(files.receipt("first.json").is_none());
    assert!(files.receipt("second.json").is_some());
}

#[test]
fn a_new_dx_instance_reaps_prior_instance_receipts() {
    let mut files = Files::new();
    let mut earlier = files.open();
    files.ask("orphan");
    files.begin(&mut earlier).unwrap();
    files.served(&mut earlier).unwrap();
    assert!(files.receipt("orphan.json").is_some());
    files.ask("late");

    files.open();
    assert!(files.receipts.is_none());
    assert!(files.request.is_none());
}

#[test]
fn a_new_instance_publishes_that_it_starts() {
    let mut files = Files::new();
    let journal = files.open();
    let state = files.published();
    assert_eq!(state.version, 1);
    assert_eq!(state.instance, "1000-77");
    assert_eq!(state.pid, 77);
    assert_eq!(state.generation, 0);
    assert_eq!(state.request, None);
    assert!(matches!(state.status, Status::Starting));
    assert_eq!(state.started_at_ms, 1000);
    assert_eq!(state.settled_at_ms, None);
    assert_eq!(state.detail, None);
    assert!(!journal.is_active());
    assert_eq!(
        files.log,
        vec![
            Action::CreateDirectory,
            Action::ClearReceipts,
            Action::RemoveRequest,
            Action::WriteState,
        ]
    );
}

#[test]
fn an_identified_request_supersedes_and_reaps() {
    let mut files = Files::new();
    let mut journal = files.open();
    files.ask("first");
    files.begin(&mut journal).unwrap();
    files.log.clear();
    files.ask("second");
    files.begin(&mut journal).unwrap();
    assert_eq!(
        files.log,
        vec![
            Action::ReadRequest,
            Action::RemoveRequest,
            Action::ReadClock,
            Action::CreateReceipts,
            Action::WriteReceipt,
            Action::WriteState,
            Action::ClearReceipts,
            Action::ReadClock,
            Action::WriteState,
        ]
    );
    assert!(files.receipts.is_none());
    assert_eq!(files.published().request.as_deref(), Some("second"));
    assert_eq!(files.published().generation, 2);
    assert_eq!(files.published().started_at_ms, 1003);
}

#[test]
fn a_generation_that_nobody_announced_has_its_own_number() {
    let mut files = Files::new();
    let mut journal = files.open();
    journal.failed("broken".to_string());
    files.settle(&mut journal).unwrap();
    let state = files.published();
    assert_eq!(state.generation, 1);
    assert!(matches!(state.status, Status::Failed));
    assert_eq!(state.detail.as_deref(), Some("broken"));
    assert_eq!(state.started_at_ms, 1001);
    assert_eq!(state.settled_at_ms, Some(1001));
    assert!(files.receipts.is_none());

    journal.exited();
    files.settle(&mut journal).unwrap();
    assert_eq!(files.published().generation, 2);
    assert!(matches!(files.published().status, Status::Exited));
    assert_eq!(files.published().detail, None);
}

#[test]
fn a_request_is_settled_once() {
    let mut files = Files::new();
    let mut journal = files.open();
    files.ask("once");
    files.begin(&mut journal).unwrap();
    journal.failed("broken".to_string());
    files.settle(&mut journal).unwrap();
    files.served(&mut journal).unwrap();

    let receipt = files.receipt("once.json").unwrap();
    assert_eq!(receipt.generation, 1);
    assert!(matches!(receipt.status, Status::Failed));
    assert_eq!(receipt.detail.as_deref(), Some("broken"));
    assert_eq!(files.receipts.as_ref().unwrap().len(), 1);
    let state = files.published();
    assert_eq!(state.generation, 2);
    assert_eq!(state.request, None);
    assert!(matches!(state.status, Status::Served));
    assert_eq!(state.detail, None);
    assert_eq!(state.settled_at_ms, Some(state.started_at_ms));
}

#[test]
fn what_is_published_fits_together() {
    let mut files = Files::new();
    let mut journal = files.open();
    let check = |state: &State| {
        let settled = matches!(
            state.status,
            Status::Served | Status::Failed | Status::Superseded | Status::Exited
        );
        assert_eq!(state.version, 1);
        assert_eq!(state.settled_at_ms.is_some(), settled);
        assert_eq!(matches!(state.status, Status::Starting), state.generation == 0);
        assert_eq!(
            state.detail.is_some(),
            matches!(state.status, Status::Failed | Status::Superseded)
        );
        assert_eq!(state.instance, "1000-77");
        assert_eq!(state.pid, 77);
    };
    check(files.published());
    files.ask("r");
    files.begin(&mut journal).unwrap();
    check(files.published());
    files.begin(&mut journal).unwrap();
    check(files.published());
    check(files.receipt("r.json").unwrap());
    files.served(&mut journal).unwrap();
    check(files.published());
    journal.failed(String::new());
    files.settle(&mut journal).unwrap();
    check(files.published());
    journal.exited();
    files.settle(&mut journal).unwrap();
    check(files.published());
}

#[test]
fn without_a_directory_only_the_clock_is_read() {
    let mut files = Files::new();
    let mut journal = Journal::at(false, Some(5), 1).unwrap();
    assert_eq!(journal.action(), Action::Nothing);
    files.ask("ignored");
    files.begin(&mut journal).unwrap();
    files.begin(&mut journal).unwrap();
    files.served(&mut journal).unwrap();
    assert!(files.log.iter().all(|action| *action == Action::ReadClock));
    assert_eq!(files.log.len(), 4);
    assert_eq!(journal.state().generation, 2);
    assert!(matches!(journal.state().status, Status::Served));
}

#[test]
fn refused_requests_change_nothing() {
    for (version, identity, failure) in [
        (2, "fine", Failure::UnsupportedVersion(2)),
        (1, "", Failure::InvalidIdentity),
        (1, "a/b", Failure::InvalidIdentity),
        (2, "a/b", Failure::UnsupportedVersion(2)),
    ] {
        let mut files = Files::new();
        let mut journal = files.open();
        files.ask("served");
        files.begin(&mut journal).unwrap();
        files.log.clear();
        files.request = Some(Request {
            version,
            request: identity.to_string(),
            created_at_ms: 1,
        });
        assert_eq!(files.begin(&mut journal), Err(failure));
        assert_eq!(files.log, vec![Action::ReadRequest]);
        assert!(files.request.is_some());
        assert!(journal.is_active());
        assert_eq!(journal.state().request.as_deref(), Some("served"));
        assert_eq!(journal.action(), Action::Nothing);
    }
}

#[test]
fn a_failed_operation_ends_what_follows_it() {
    for broken in [
        Action::CreateReceipts,
        Action::WriteReceipt,
        Action::WriteState,
    ] {
        let mut files = Files::new();
        let mut journal = files.open();
        files.ask("r");
        files.begin(&mut journal).unwrap();
        files.broken = Some(broken);
        assert_eq!(files.served(&mut journal), Err(Failure::Refused(broken)));
        assert_eq!(journal.action(), Action::Nothing);
        assert!(matches!(journal.state().status, Status::Served));
        // The generation is still to be settled until its receipt is written.
        assert_eq!(journal.is_active(), broken != Action::WriteState);
    }
    let mut files = Files::new();
    let mut journal = files.open();
    files.broken = Some(Action::ReadClock);
    assert_eq!(files.begin(&mut journal), Err(Failure::ClockBeforeEpoch));
    assert_eq!(journal.state().generation, 0);
    files.broken = Some(Action::ReadRequest);
    assert_eq!(files.begin(&mut journal), Err(Failure::Unreadable));
    files.broken = None;
    files.ask("r");
    files.broken = Some(Action::RemoveRequest);
    assert_eq!(
        files.begin(&mut journal),
        Err(Failure::Refused(Action::RemoveRequest))
    );
    assert!(!journal.is_active());
}

#[test]
fn events_out_of_turn_are_refused() {
    let mut journal = Journal::at(true, Some(5), 1).unwrap();
    assert_eq!(
        journal.resume(Event::Clock(Some(6))),
        Err(Failure::OutOfTurn)
    );
    assert_eq!(
        journal.resume(Event::Requested(Requested::Absent)),
        Err(Failure::OutOfTurn)
    );
    assert_eq!(journal.action(), Action::CreateDirectory);
    let mut idle = Journal::at(false, Some(5), 1).unwrap();
    assert_eq!(
        idle.resume(Event::Attempted(Attempt::Done)),
        Err(Failure::OutOfTurn)
    );
    // A directory that is missing after it was to be created is a failure.
    assert_eq!(
        journal.resume(Event::Attempted(Attempt::Missing)),
        Err(Failure::Refused(Action::CreateDirectory))
    );
}

#[test]
fn the_clock_fits_the_state_or_is_refused() {
    assert_eq!(now_ms(Some(0)), Ok(0));
    assert_eq!(now_ms(Some(u64::MAX as u128)), Ok(u64::MAX));
    assert_eq!(
        now_ms(Some(u64::MAX as u128 + 1)),
        Err(Failure::ClockOverflow)
    );
    assert_eq!(now_ms(None), Err(Failure::ClockBeforeEpoch));
    assert!(matches!(
        Journal::at(true, None, 1),
        Err(Failure::ClockBeforeEpoch)
    ));
}

#[test]
fn identities_can_name_a_file() {
    for identity in ["a", "Z9", "a-b_c.d", "..", "-"] {
        assert!(valid_identity(identity), "{identity}");
    }
    for identity in ["", "a b", "a/b", "\u{e9}", "a\n", "a\\b", "a:b"] {
        assert!(!valid_identity(identity), "{identity}");
    }
    assert_eq!(receipt_file("a.b"), "a.b.json");
    assert_ne!(receipt_file("a"), receipt_file("b"));
}

#[test]
fn claiming_tells_what_was_read() {
    assert_eq!(claim_request(Requested::Absent), Ok(None));
    assert_eq!(claim_request(Requested::Unreadable), Err(Failure::Unreadable));
    assert_eq!(claim_request(Requested::Undecodable), Err(Failure::Undecodable));
    let request = Request { version: 1, request: "r".to_string(), created_at_ms: 0 };
    assert_eq!(
        claim_request(Requested::Decoded(request)),
        Ok(Some("r".to_string()))
    );
}
