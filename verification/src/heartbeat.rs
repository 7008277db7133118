//! Inbound heartbeat frames: the parser for the device's periodic status
//! line and the failure-annotation transformations a transport applies when
//! it cannot obtain or trust a fresh line.

use vstd::prelude::*;

verus! {

/// The health of one subsystem.
#[derive(Debug, PartialEq, Eq, Clone)]
pub enum Status {
    Healthy,
    Failed(String),
    Unknown,
}

/// The five-subsystem health snapshot carried by a heartbeat.
#[derive(Debug, PartialEq, Eq, Clone)]
pub struct StatusMap {
    pub controller: Status,
    pub lock: Status,
    pub rfid: Status,
    pub led: Status,
    pub speaker: Status,
}

/// The error produced when a raw status line cannot be parsed.
#[derive(Debug)]
pub struct HeartbeatParseError;

/// One parsed inbound status report: subsystem health, the card code read by
/// the RFID reader (absent when no card was presented), and the Unix time at
/// which it was captured.
#[derive(Debug, PartialEq, Eq, Clone)]
pub struct Heartbeat {
    pub status: StatusMap,
    pub code: Option<String>,
    pub timestamp: u64,
}

/// All five subsystem statuses are exactly `Healthy`.
pub open spec fn status_all_ok(m: StatusMap) -> bool {
    &&& m.controller is Healthy
    &&& m.lock is Healthy
    &&& m.rfid is Healthy
    &&& m.led is Healthy
    &&& m.speaker is Healthy
}

/// The controller status carries the failure reason `msg` and every other
/// subsystem status is forced to `Unknown`, since a failed controller link
/// leaves them unobservable.
pub open spec fn controller_failed(m: StatusMap, msg: Seq<char>) -> bool {
    &&& (m.controller matches Status::Failed(e) && e@ == msg)
    &&& m.lock is Unknown
    &&& m.rfid is Unknown
    &&& m.led is Unknown
    &&& m.speaker is Unknown
}

/// The raw line holds at least one semicolon.
pub open spec fn has_semi(s: Seq<char>) -> bool {
    exists|i: int| 0 <= i < s.len() && s[i] == ';'
}

/// The position of the first semicolon (the line's length when it has none).
pub open spec fn semi_pos(s: Seq<char>) -> int
    decreases s.len(),
{
    if s.len() == 0 {
        0
    } else if s[0] == ';' {
        0
    } else {
        1 + semi_pos(s.drop_first())
    }
}

/// The first semicolon-delimited field of the raw line: the card code.
pub open spec fn card_field(s: Seq<char>) -> Seq<char>
    recommends
        has_semi(s),
{
    s.subrange(0, semi_pos(s))
}

proof fn lemma_semi_pos_first(s: Seq<char>, i: int)
    requires
        0 <= i < s.len(),
        s[i] == ';',
        forall|j: int| 0 <= j < i ==> s[j] != ';',
    ensures
        semi_pos(s) == i,
    decreases s.len(),
{
    if s[0] == ';' {
    } else {
        lemma_semi_pos_first(s.drop_first(), i - 1);
    }
}

/// Any heartbeat whose controller link has been annotated as failed reports
/// not-all-ok, whatever the failure reason.
pub proof fn lemma_controller_failed_not_all_ok(m: StatusMap, msg: Seq<char>)
    requires
        controller_failed(m, msg),
    ensures
        !status_all_ok(m),
{
}

/// Relies on std::time::SystemTime::now and duration_since(UNIX_EPOCH): the
/// current time as whole seconds since the Unix epoch, or zero when the
/// clock reads earlier than the epoch. Nothing is promised of the value.
#[verifier::external_body]
fn unix_now_seconds() -> u64 {
    match std::time::SystemTime::now().duration_since(std::time::UNIX_EPOCH) {
        Ok(d) => d.as_secs(),
        Err(_) => 0,
    }
}

impl Heartbeat {
    /// A fresh all-ok heartbeat with no card code, stamped with the current
    /// wall-clock time.
    pub fn new() -> (r: Self)
        ensures
            status_all_ok(r.status),
            r.code is None,
    {
        Heartbeat {
            status: StatusMap {
                controller: Status::Healthy,
                lock: Status::Healthy,
                rfid: Status::Healthy,
                led: Status::Healthy,
                speaker: Status::Healthy,
            },
            code: None,
            timestamp: unix_now_seconds(),
        }
    }

    /// Parse one raw status line. The first `;`-delimited field is the card
    /// code: the literal `"0"` means no card; any other value must be
    /// exactly eight characters. The second field must be present (a line
    /// with no semicolon has fewer than two fields) but is reserved and not
    /// yet interpreted: every subsystem status is `Healthy` on success. The
    /// timestamp is the parse-time wall clock, not read from the wire.
    pub fn from_heartbeat(h: String) -> (r: Result<Self, HeartbeatParseError>)
        ensures
            !has_semi(h@) ==> r is Err,
            has_semi(h@) && card_field(h@) == seq!['0'] ==> (r matches Ok(hb) && hb.code is None
                && status_all_ok(hb.status)),
            has_semi(h@) && card_field(h@) != seq!['0'] && card_field(h@).len() == 8 ==> (
            r matches Ok(hb) && (hb.code matches Some(card) && card@ == card_field(h@))
                && status_all_ok(hb.status)),
            has_semi(h@) && card_field(h@) != seq!['0'] && card_field(h@).len() != 8 ==> r is Err,
    {
        let s = h.as_str();
        let len = s.unicode_len();
        let mut i: usize = 0;
        loop
            invariant
                0 <= i <= len,
                len == h@.len(),
                s@ == h@,
                forall|j: int| 0 <= j < i ==> h@[j] != ';',
            ensures
                0 <= i < len,
                h@[i as int] == ';',
                forall|j: int| 0 <= j < i ==> h@[j] != ';',
            decreases len - i,
        {
            if i == len {
                assert(!has_semi(h@));
                return Err(HeartbeatParseError);
            }
            if s.get_char(i) == ';' {
                break;
            }
            i = i + 1;
        }
        proof {
            lemma_semi_pos_first(h@, i as int);
        }
        let card = s.substring_char(0, i);
        assert(card@ == card_field(h@));
        let card_len = card.unicode_len();
        if card_len == 1 && card.get_char(0) == '0' {
            assert(card_field(h@) =~= seq!['0']);
            Ok(Heartbeat {
                status: StatusMap {
                    controller: Status::Healthy,
                    lock: Status::Healthy,
                    rfid: Status::Healthy,
                    led: Status::Healthy,
                    speaker: Status::Healthy,
                },
                code: None,
                timestamp: unix_now_seconds(),
            })
        } else if card_len == 8 {
            assert(card_field(h@) != seq!['0']);
            Ok(Heartbeat {
                status: StatusMap {
                    controller: Status::Healthy,
                    lock: Status::Healthy,
                    rfid: Status::Healthy,
                    led: Status::Healthy,
                    speaker: Status::Healthy,
                },
                code: Some(card.to_owned()),
                timestamp: unix_now_seconds(),
            })
        } else {
            assert(card_field(h@) != seq!['0']);
            Err(HeartbeatParseError)
        }
    }

    /// Annotate a broken transport link: the controller status becomes an
    /// error naming the broken connection, the four other statuses become
    /// `Unknown`, and the card code and timestamp are kept.
    pub fn set_connection_broken(self) -> (r: Self)
        ensures
            r.code == self.code,
            r.timestamp == self.timestamp,
            controller_failed(r.status, "Serial connection broken"@),
    {
        Heartbeat {
            status: StatusMap {
                controller: Status::Failed("Serial connection broken".to_owned()),
                lock: Status::Unknown,
                rfid: Status::Unknown,
                led: Status::Unknown,
                speaker: Status::Unknown,
            },
            code: self.code,
            timestamp: self.timestamp,
        }
    }

    /// Annotate a transport read timeout: the controller status becomes an
    /// error naming the timeout, the four other statuses become `Unknown`,
    /// and the card code and timestamp are kept.
    pub fn set_connection_timeout(self) -> (r: Self)
        ensures
            r.code == self.code,
            r.timestamp == self.timestamp,
            controller_failed(r.status, "Serial connection timeout"@),
    {
        Heartbeat {
            status: StatusMap {
                controller: Status::Failed("Serial connection timeout".to_owned()),
                lock: Status::Unknown,
                rfid: Status::Unknown,
                led: Status::Unknown,
                speaker: Status::Unknown,
            },
            code: self.code,
            timestamp: self.timestamp,
        }
    }

    /// Annotate an unparseable status line: the controller status becomes an
    /// error naming the invalid heartbeat, the four other statuses become
    /// `Unknown`, and the card code and timestamp are kept.
    pub fn set_invalid_heartbeat(self) -> (r: Self)
        ensures
            r.code == self.code,
            r.timestamp == self.timestamp,
            controller_failed(r.status, "Invalid heartbeat received"@),
    {
        Heartbeat {
            status: StatusMap {
                controller: Status::Failed("Invalid heartbeat received".to_owned()),
                lock: Status::Unknown,
                rfid: Status::Unknown,
                led: Status::Unknown,
                speaker: Status::Unknown,
            },
            code: self.code,
            timestamp: self.timestamp,
        }
    }

    /// True exactly when all five subsystem statuses are `Healthy`.
    pub fn all_ok(&self) -> (r: bool)
        ensures
            r == status_all_ok(self.status),
    {
        matches!(self.status.controller, Status::Healthy) && matches!(self.status.lock, Status::Healthy)
            && matches!(self.status.rfid, Status::Healthy) && matches!(self.status.led, Status::Healthy)
            && matches!(self.status.speaker, Status::Healthy)
    }
}

} // verus!
