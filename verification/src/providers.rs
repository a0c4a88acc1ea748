//! The closed set of outbound notification providers: their configuration,
//! what each one sends, and how each one's raw transport results become a
//! per-recipient [`SendOutcome`]. The network transports themselves live
//! outside the library and hand their results back as plain values.

use vstd::prelude::*;
use vstd::slice::{slice_subrange, slice_to_vec};
use vstd::string::StringSliceAdditionalSpecFns;

use crate::alerts::{AlertInfo, AlertLevel};
use crate::recipients::CommunicationRecipient;
use crate::retry::SendOutcome;
use crate::text::{lemma_find_is, spec_decimal, spec_find, spec_split, split_bytes, to_decimal_string};

verus! {

/// The push-notification priority an alert's severity maps to.
pub open spec fn spec_push_priority(level: AlertLevel) -> i8 {
    match level {
        AlertLevel::Info => -1i8,
        AlertLevel::Warning => 0,
        AlertLevel::Critical => 1,
        AlertLevel::Alarm => 2,
    }
}

/// Seconds between re-deliveries of an emergency push notification.
pub const EMERGENCY_PUSH_RETRY: u32 = 30;

/// Seconds after which an unacknowledged emergency push notification expires.
pub const EMERGENCY_PUSH_EXPIRE: u32 = 1800;

/// The push provider's credentials and recipients. Each recipient's target
/// is a user token.
pub struct PushoverConfig {
    pub token: String,
    pub recipients: Vec<CommunicationRecipient>,
}

/// One push notification request body, as plain values. The transport
/// serializes it and posts it.
pub struct PushoverPayload {
    pub token: String,
    pub user: String,
    pub title: String,
    pub message: String,
    pub priority: i8,
    pub retry: Option<u32>,
    pub expire: Option<u32>,
    pub timestamp: Option<u64>,
}

impl PushoverConfig {
    /// The push provider only constructs with a token and at least one
    /// recipient; anything less is a construction failure, which excludes
    /// the provider.
    pub fn from_config(token: Option<String>, users: Option<Vec<CommunicationRecipient>>) -> (r:
        Option<PushoverConfig>)
        ensures
            match r {
                Some(c) => (token matches Some(t) && c.token == t) && (users matches Some(u)
                    && c.recipients == u && u@.len() > 0),
                None => token is None || users is None || (users matches Some(u) && u@.len() == 0),
            },
    {
        match (token, users) {
            (Some(token), Some(users)) => {
                if users.len() == 0 {
                    None
                } else {
                    Some(PushoverConfig { token, recipients: users })
                }
            },
            _ => None,
        }
    }

    /// The request body for one recipient: the alert's source titles the
    /// notification, the severity maps to the priority, and only an alarm
    /// carries the emergency re-delivery and expiry fields.
    pub fn create_payload(&self, user: &String, alert: &AlertInfo) -> (p: PushoverPayload)
        ensures
            p.token@ == self.token@,
            p.user@ == user@,
            p.title@ == alert@.source,
            p.message@ == alert@.message,
            p.priority == spec_push_priority(alert.level),
            p.retry == if alert.level is Alarm {
                Some(EMERGENCY_PUSH_RETRY)
            } else {
                None::<u32>
            },
            p.expire == if alert.level is Alarm {
                Some(EMERGENCY_PUSH_EXPIRE)
            } else {
                None::<u32>
            },
            p.timestamp == alert.timestamp,
    {
        let is_emergency = alert.level.is_alarm();
        PushoverPayload {
            token: self.token.clone(),
            user: user.clone(),
            title: alert.source.clone(),
            message: alert.message.clone(),
            priority: match alert.level {
                AlertLevel::Info => -1,
                AlertLevel::Warning => 0,
                AlertLevel::Critical => 1,
                AlertLevel::Alarm => 2,
            },
            retry: if is_emergency {
                Some(EMERGENCY_PUSH_RETRY)
            } else {
                None
            },
            expire: if is_emergency {
                Some(EMERGENCY_PUSH_EXPIRE)
            } else {
                None
            },
            timestamp: alert.timestamp,
        }
    }
}

/// The indices among `targets` whose parallel flag is false: the recipients
/// a fanned-out attempt failed to reach.
pub open spec fn spec_failed_targets(targets: Seq<usize>, reached: Seq<bool>) -> Seq<usize>
    decreases targets.len(),
{
    if targets.len() == 0 || targets.len() != reached.len() {
        seq![]
    } else {
        let prefix = spec_failed_targets(targets.drop_last(), reached.drop_last());
        if !reached.last() {
            prefix.push(targets.last())
        } else {
            prefix
        }
    }
}

/// Folds one fanned-out push attempt into a per-recipient outcome:
/// `reached[k]` says whether the request for `targets[k]` got a success
/// response; every other recipient failed this attempt and is retried.
/// Each recipient is judged independently, so the attempt always completes.
pub fn push_send_outcome(targets: &Vec<usize>, reached: &Vec<bool>) -> (r: SendOutcome)
    requires
        targets@.len() == reached@.len(),
    ensures
        r matches SendOutcome::Completed { failed } && failed@ == spec_failed_targets(
            targets@,
            reached@,
        ),
{
    let mut failed: Vec<usize> = Vec::new();
    let mut i: usize = 0;
    while i < targets.len()
        invariant
            targets@.len() == reached@.len(),
            i <= targets@.len(),
            failed@ == spec_failed_targets(targets@.take(i as int), reached@.take(i as int)),
        decreases targets@.len() - i,
    {
        proof {
            assert(targets@.take(i + 1).drop_last() =~= targets@.take(i as int));
            assert(reached@.take(i + 1).drop_last() =~= reached@.take(i as int));
            assert(targets@.take(i + 1).last() == targets@[i as int]);
            assert(reached@.take(i + 1).last() == reached@[i as int]);
        }
        if !reached[i] {
            failed.push(targets[i]);
        }
        i = i + 1;
    }
    proof {
        assert(targets@.take(targets@.len() as int) =~= targets@);
        assert(reached@.take(reached@.len() as int) =~= reached@);
    }
    SendOutcome::Completed { failed }
}

/// The SMS gateway provider's configuration: where the local gateway
/// listens, and the phone numbers it serves.
pub struct SmsConfig {
    pub url: String,
    pub recipients: Vec<CommunicationRecipient>,
}

impl SmsConfig {
    /// The SMS provider only constructs with a gateway address and at
    /// least one recipient.
    pub fn from_config(url: Option<String>, recipients: Option<Vec<CommunicationRecipient>>) -> (r:
        Option<SmsConfig>)
        ensures
            match r {
                Some(c) => (url matches Some(u) && c.url == u) && (recipients matches Some(rs)
                    && c.recipients == rs && rs@.len() > 0),
                None => url is None || recipients is None || (recipients matches Some(rs)
                    && rs@.len() == 0),
            },
    {
        match (url, recipients) {
            (Some(url), Some(recipients)) => {
                if recipients.len() == 0 {
                    None
                } else {
                    Some(SmsConfig { url, recipients })
                }
            },
            _ => None,
        }
    }

    /// The text of one outgoing message: the system's name, then the
    /// alert's one-line rendering.
    pub fn create_message(&self, alert: &AlertInfo) -> (m: String)
        ensures
            m@ == "sentinel - "@ + alert@.source + " - "@ + alert@.message,
    {
        let mut m = String::new();
        m.append("sentinel - ");
        let line = alert.display_string();
        m.append(line.as_str());
        proof {
            assert("sentinel - "@ + (alert@.source + " - "@ + alert@.message) =~= "sentinel - "@
                + alert@.source + " - "@ + alert@.message);
        }
        m
    }
}

/// The TextAnywhere SMS provider's configuration: account credentials, the
/// sender shown to recipients, and the phone numbers served.
pub struct TextAnywhereConfig {
    pub originator: String,
    pub username: String,
    pub password: String,
    pub recipients: Vec<CommunicationRecipient>,
}

impl TextAnywhereConfig {
    /// This provider only constructs with all three credentials and at
    /// least one recipient.
    pub fn from_config(
        originator: Option<String>,
        username: Option<String>,
        password: Option<String>,
        recipients: Option<Vec<CommunicationRecipient>>,
    ) -> (r: Option<TextAnywhereConfig>)
        ensures
            match r {
                Some(c) => (originator matches Some(o) && c.originator == o) && (username
                    matches Some(u) && c.username == u) && (password matches Some(p) && c.password
                    == p) && (recipients matches Some(rs) && c.recipients == rs && rs@.len() > 0),
                None => originator is None || username is None || password is None || recipients
                    is None || (recipients matches Some(rs) && rs@.len() == 0),
            },
    {
        match (originator, username, password, recipients) {
            (Some(originator), Some(username), Some(password), Some(recipients)) => {
                if recipients.len() == 0 {
                    None
                } else {
                    Some(TextAnywhereConfig { originator, username, password, recipients })
                }
            },
            _ => None,
        }
    }
}

/// The longest message body the SMS gateway accepts, in bytes.
pub const SMS_BODY_LIMIT: usize = 160;

/// Whether a message body's UTF-8 byte length fits the gateway's limit;
/// an oversize body makes delivery pointless for this provider.
pub fn body_within_sms_limit(body: &str) -> (r: bool)
    ensures
        body.spec_bytes().len() <= SMS_BODY_LIMIT ==> r,
        r ==> body.spec_bytes().len() as usize <= SMS_BODY_LIMIT,
{
    body.len() <= SMS_BODY_LIMIT
}

/// The targeted recipients' numbers joined with commas, in target order:
/// the gateway's multi-destination field.
pub open spec fn spec_join_targets(rs: Seq<CommunicationRecipient>, ts: Seq<usize>) -> Seq<char>
    decreases ts.len(),
{
    if ts.len() == 0 {
        seq![]
    } else if ts.len() == 1 {
        rs[ts[0] as int].target@
    } else {
        spec_join_targets(rs, ts.drop_last()) + seq![','] + rs[ts.last() as int].target@
    }
}

/// Joins the targeted recipients' numbers with commas.
pub fn join_targets(recipients: &Vec<CommunicationRecipient>, targets: &Vec<usize>) -> (r: String)
    requires
        forall|k: int| 0 <= k < targets@.len() ==> #[trigger] targets@[k] < recipients@.len(),
    ensures
        r@ == spec_join_targets(recipients@, targets@),
{
    let mut r = String::new();
    let mut i: usize = 0;
    while i < targets.len()
        invariant
            i <= targets@.len(),
            forall|k: int| 0 <= k < targets@.len() ==> #[trigger] targets@[k] < recipients@.len(),
            r@ == spec_join_targets(recipients@, targets@.take(i as int)),
        decreases targets@.len() - i,
    {
        let ghost pre = r@;
        if i > 0 {
            r.append(",");
        }
        r.append(recipients[targets[i]].target.as_str());
        proof {
            reveal_strlit(",");
            assert(targets@.take(i + 1).drop_last() =~= targets@.take(i as int));
            assert(targets@.take(i + 1).last() == targets@[i as int]);
            if i == 0 {
                assert(Seq::<char>::empty() + recipients@[targets@[0] as int].target@
                    =~= recipients@[targets@[0] as int].target@);
            } else {
                assert((pre + ","@) + recipients@[targets@[i as int] as int].target@ =~= pre
                    + seq![','] + recipients@[targets@[i as int] as int].target@);
            }
        }
        i = i + 1;
    }
    proof {
        assert(targets@.take(targets@.len() as int) =~= targets@);
    }
    r
}

impl TextAnywhereConfig {
    /// The gateway's send form for one attempt: the fixed field set, the
    /// credentials, a correlation reference, the joined destinations and
    /// the message body.
    pub fn create_send_form(&self, body: String, reference: u64, destinations: String) -> (form:
        Vec<(&'static str, String)>)
        ensures
            form@.len() == 11,
            form@[0].0@ == "Client_ID"@ && form@[0].1@ == self.username@,
            form@[1].0@ == "Client_Pass"@ && form@[1].1@ == self.password@,
            form@[2].0@ == "Originator"@ && form@[2].1@ == self.originator@,
            form@[3].0@ == "Client_Ref"@ && form@[3].1@ == "alarm-"@ + spec_decimal(
                reference as int,
            ),
            form@[4].0@ == "Billing_Ref"@ && form@[4].1@ == "security-alarm"@,
            form@[5].0@ == "Connection"@ && form@[5].1@ == "1"@,
            form@[6].0@ == "OType"@ && form@[6].1@ == "1"@,
            form@[7].0@ == "DestinationEx"@ && form@[7].1@ == destinations@,
            form@[8].0@ == "Body"@ && form@[8].1@ == body@,
            form@[9].0@ == "SMS_Type"@ && form@[9].1@ == "0"@,
            form@[10].0@ == "Reply_Type"@ && form@[10].1@ == "0"@,
    {
        let mut client_ref = String::new();
        client_ref.append("alarm-");
        let counter_digits = to_decimal_string(reference);
        client_ref.append(counter_digits.as_str());
        proof {
            assert(Seq::<char>::empty() + "alarm-"@ =~= "alarm-"@);
        }
        let mut form: Vec<(&'static str, String)> = Vec::new();
        form.push(("Client_ID", self.username.clone()));
        form.push(("Client_Pass", self.password.clone()));
        form.push(("Originator", self.originator.clone()));
        form.push(("Client_Ref", client_ref));
        form.push(("Billing_Ref", "security-alarm".to_owned()));
        form.push(("Connection", "1".to_owned()));
        form.push(("OType", "1".to_owned()));
        form.push(("DestinationEx", destinations));
        form.push(("Body", body));
        form.push(("SMS_Type", "0".to_owned()));
        form.push(("Reply_Type", "0".to_owned()));
        form
    }
}

/// The destination and status halves of one gateway response segment: the
/// text before the first colon and the text between the first and second,
/// or nothing when the segment has no colon at all.
pub open spec fn spec_pair_of(seg: Seq<u8>) -> Option<(Seq<u8>, Seq<u8>)> {
    let i = spec_find(seg, 58u8);
    if i == seg.len() {
        None
    } else {
        let rest = seg.skip(i + 1);
        Some((seg.take(i), rest.take(spec_find(rest, 58u8))))
    }
}

/// The pairs the response segments carry, in order, segments without a
/// colon skipped.
pub open spec fn spec_pairs(segs: Seq<Seq<u8>>) -> Seq<(Seq<u8>, Seq<u8>)>
    decreases segs.len(),
{
    if segs.len() == 0 {
        seq![]
    } else {
        let prefix = spec_pairs(segs.drop_last());
        match spec_pair_of(segs.last()) {
            Some(p) => prefix.push(p),
            None => prefix,
        }
    }
}

/// What a whole gateway response body says: one `destination:status` pair
/// per comma-separated segment that carries one.
pub open spec fn spec_parse_result(text: Seq<u8>) -> Seq<(Seq<u8>, Seq<u8>)> {
    spec_pairs(spec_split(text, 44u8))
}

/// The position of the first colon at or after `from`, or the end.
fn find_colon(seg: &Vec<u8>, from: usize) -> (r: usize)
    requires
        from <= seg@.len(),
    ensures
        from <= r <= seg@.len(),
        r < seg@.len() ==> seg@[r as int] == 58u8,
        forall|j: int| from <= j < r ==> seg@[j] != 58u8,
        r - from == spec_find(seg@.skip(from as int), 58u8),
{
    let mut r = from;
    while r < seg.len() && seg[r] != 58u8
        invariant
            from <= r <= seg@.len(),
            forall|j: int| from <= j < r ==> seg@[j] != 58u8,
        decreases seg@.len() - r,
    {
        r = r + 1;
    }
    proof {
        let t = seg@.skip(from as int);
        assert forall|j: int| 0 <= j < r - from implies t[j] != 58u8 by {
            assert(t[j] == seg@[j + from]);
        }
        if r < seg@.len() {
            assert(t[r - from] == seg@[r as int]);
        }
        lemma_find_is(t, 58u8, r - from);
    }
    r
}

/// Reads one response segment into its pair, when it has one.
fn pair_of_segment(seg: &Vec<u8>) -> (r: Option<(Vec<u8>, Vec<u8>)>)
    ensures
        match r {
            Some(p) => spec_pair_of(seg@) matches Some(q) && p.0@ == q.0 && p.1@ == q.1,
            None => spec_pair_of(seg@) is None,
        },
{
    proof {
        assert(seg@.skip(0) =~= seg@);
    }
    let i = find_colon(seg, 0);
    if i == seg.len() {
        return None;
    }
    let j = find_colon(seg, i + 1);
    let first = slice_to_vec(slice_subrange(seg.as_slice(), 0, i));
    let second = slice_to_vec(slice_subrange(seg.as_slice(), i + 1, j));
    proof {
        let rest = seg@.skip(i + 1);
        assert(seg@.take(i as int) =~= seg@.subrange(0, i as int));
        assert(rest.take(spec_find(rest, 58u8)) =~= seg@.subrange(i + 1, j as int));
    }
    Some((first, second))
}

/// The pairs' mathematical image.
pub open spec fn spec_pairs_view(pairs: Seq<(Vec<u8>, Vec<u8>)>) -> Seq<(Seq<u8>, Seq<u8>)> {
    pairs.map_values(|p: (Vec<u8>, Vec<u8>)| (p.0@, p.1@))
}

/// Reads the gateway's response body into its `destination:status` pairs.
pub fn parse_result(text: &Vec<u8>) -> (pairs: Vec<(Vec<u8>, Vec<u8>)>)
    ensures
        spec_pairs_view(pairs@) == spec_parse_result(text@),
{
    let segs = split_bytes(text, 44u8);
    let ghost segs_view = segs@.map_values(|p: Vec<u8>| p@);
    let mut pairs: Vec<(Vec<u8>, Vec<u8>)> = Vec::new();
    let mut i: usize = 0;
    while i < segs.len()
        invariant
            i <= segs@.len(),
            segs_view == segs@.map_values(|p: Vec<u8>| p@),
            segs_view == spec_split(text@, 44u8),
            spec_pairs_view(pairs@) == spec_pairs(segs_view.take(i as int)),
        decreases segs@.len() - i,
    {
        proof {
            assert(segs_view.take(i + 1).drop_last() =~= segs_view.take(i as int));
            assert(segs_view.take(i + 1).last() == segs_view[i as int]);
            assert(segs_view[i as int] == segs@[i as int]@);
        }
        match pair_of_segment(&segs[i]) {
            Some(p) => {
                let ghost q = spec_pair_of(segs_view[i as int])->0;
                proof {
                    assert(spec_pairs_view(pairs@).push(q) =~= spec_pairs_view(pairs@.push(p)));
                }
                pairs.push(p);
            },
            None => {},
        }
        i = i + 1;
    }
    proof {
        assert(segs_view.take(segs_view.len() as int) =~= segs_view);
    }
    pairs
}

/// Whether any pair reports its destination accepted: the gateway's code
/// for success is the single byte of the digit one.
pub open spec fn spec_any_status_ok(pairs: Seq<(Seq<u8>, Seq<u8>)>) -> bool {
    exists|i: int| 0 <= i < pairs.len() && #[trigger] pairs[i].1 == seq![49u8]
}

/// Whether the gateway accepted the message for at least one destination.
pub fn ta_delivery_succeeded(pairs: &Vec<(Vec<u8>, Vec<u8>)>) -> (ok: bool)
    ensures
        ok == spec_any_status_ok(spec_pairs_view(pairs@)),
{
    let ghost view = spec_pairs_view(pairs@);
    let mut i: usize = 0;
    while i < pairs.len()
        invariant
            i <= pairs@.len(),
            view == spec_pairs_view(pairs@),
            !spec_any_status_ok(view.take(i as int)),
        decreases pairs@.len() - i,
    {
        proof {
            assert(view[i as int] == (pairs@[i as int].0@, pairs@[i as int].1@));
        }
        if pairs[i].1.len() == 1 && pairs[i].1[0] == 49u8 {
            proof {
                assert(view[i as int].1 =~= seq![49u8]);
            }
            return true;
        }
        proof {
            let cur = view.take(i + 1);
            if spec_any_status_ok(cur) {
                let w = choose|w: int| 0 <= w < cur.len() && #[trigger] cur[w].1 == seq![49u8];
                if w < i {
                    assert(view.take(i as int)[w].1 == seq![49u8]);
                } else {
                    assert(view[i as int].1 == seq![49u8]);
                    assert(pairs@[i as int].1@ == seq![49u8]);
                }
            }
        }
        i = i + 1;
    }
    proof {
        assert(view.take(view.len() as int) =~= view);
    }
    false
}

/// Folds one gateway attempt into a per-recipient outcome. A response with
/// any accepted destination concludes this provider's work; one where
/// every destination was rejected means the message or account is refused,
/// so more attempts are pointless and the provider aborts.
pub fn text_anywhere_outcome(pairs: &Vec<(Vec<u8>, Vec<u8>)>) -> (r: SendOutcome)
    ensures
        r@ == if spec_any_status_ok(spec_pairs_view(pairs@)) {
            crate::retry::SendOutcomeModel::Completed { failed: seq![] }
        } else {
            crate::retry::SendOutcomeModel::Unavailable
        },
{
    if ta_delivery_succeeded(pairs) {
        SendOutcome::Completed { failed: Vec::new() }
    } else {
        SendOutcome::Unavailable
    }
}

} // verus!
