//! Alerts of operations. Grouping and retries are the sender's business; what
//! arrives is kept. Acknowledging an alert never resolves it.
use crate::collections::TextMap;
use crate::control::billing_review::{digest_text, is_digest};
use crate::control::clusters::{audit, audited, AuditDraft, AuditPayload};
use crate::control::config::text_of;
use crate::control::error::{invalid, refused, Fault, ServiceError, ServiceResult};
use crate::crypto::{fingerprint, fingerprint_text};
use crate::domain::{clock_in_range, Timestamp};
use crate::headers::lowered;
use crate::json::{
    as_array, as_str, does_say, document, elements, get, inner, json_of, member, parse, says, Json,
};
use crate::text::{
    blank, byte_len, bytes_of, decimal, int_text, is_blank, lowercase, same, starts_with,
};
use vstd::prelude::*;

verus! {

/// A notification with alerts.
pub struct Webhook {
    pub alerts: Vec<Alert>,
    /// How many alerts the sender left out.
    pub truncated_alerts: u64,
}

pub struct Alert {
    pub status: String,
    pub labels: TextMap<String>,
    pub annotations: TextMap<String>,
    pub starts_at: Timestamp,
    pub ends_at: Timestamp,
    pub fingerprint: String,
}

#[derive(Clone, Debug)]
pub struct AlertQuery {
    pub after: Option<String>,
    pub state: Option<String>,
}

#[derive(Clone, Debug)]
pub struct Acknowledge {
    pub reason: String,
}

/// No entry is longer than the bounds.
pub open spec fn bounded(entries: Seq<(String, String)>, value_bytes: int) -> bool {
    forall|i: int|
        0 <= i < entries.len() ==> bytes_of((#[trigger] entries[i]).0@).len() <= 128 && bytes_of(
            entries[i].1@,
        ).len() <= value_bytes
}

fn is_bounded(entries: &Vec<(String, String)>, value_bytes: usize) -> (r: bool)
    ensures
        r == bounded(entries@, value_bytes as int),
{
    let mut i: usize = 0;
    while i < entries.len()
        invariant
            i <= entries@.len(),
            forall|j: int|
                0 <= j < i ==> bytes_of((#[trigger] entries@[j]).0@).len() <= 128 && bytes_of(
                    entries@[j].1@,
                ).len() <= value_bytes,
        decreases entries.len() - i,
    {
        if byte_len(entries[i].0.as_str()) > 128 || byte_len(entries[i].1.as_str())
            > value_bytes {
            assert(bytes_of(entries@[i as int].0@).len() > 128 || bytes_of(
                entries@[i as int].1@,
            ).len() > value_bytes);
            return false;
        }
        i += 1;
    }
    true
}

pub open spec fn hex16(s: Seq<char>) -> bool {
    &&& bytes_of(s).len() == 16
    &&& forall|i: int|
        0 <= i < bytes_of(s).len() ==> crate::control::billing_review::hex_byte(
            #[trigger] bytes_of(s)[i],
        )
}

fn is_hex16(s: &str) -> (r: bool)
    ensures
        r == hex16(s@),
{
    let bytes = s.as_bytes();
    if bytes.len() != 16 {
        return false;
    }
    let mut i: usize = 0;
    while i < bytes.len()
        invariant
            i <= bytes.len(),
            bytes@ == bytes_of(s@),
            forall|j: int|
                0 <= j < i ==> crate::control::billing_review::hex_byte(#[trigger] bytes@[j]),
        decreases bytes.len() - i,
    {
        let b = bytes[i];
        if !((0x30 <= b && b <= 0x39) || (0x41 <= b && b <= 0x46) || (0x61 <= b && b <= 0x66)) {
            assert(!crate::control::billing_review::hex_byte(bytes_of(s@)[i as int]));
            return false;
        }
        i += 1;
    }
    true
}

/// Microseconds in five minutes.
pub const LEEWAY: i64 = 300_000_000;

/// The milliseconds of a time, rounded down.
pub open spec fn millis(time: Timestamp) -> int {
    time as int / 1_000
}

fn timestamp_millis(time: Timestamp) -> (r: i64)
    ensures
        r == millis(time),
{
    if time >= 0 {
        time / 1_000
    } else {
        let magnitude: i128 = -(time as i128);
        let floor: i128 = -((magnitude + 999) / 1_000);
        floor as i64
    }
}

impl Alert {
    pub open spec fn wf(self) -> bool {
        self.labels.wf() && self.annotations.wf()
    }

    pub open spec fn resolved(self) -> bool {
        self.status@ == "resolved"@
    }

    pub open spec fn sound(self, now: Timestamp) -> bool {
        &&& self.status@ == "firing"@ || self.resolved()
        &&& hex16(self.fingerprint@)
        &&& self.labels@.dom().contains("alertname"@)
        &&& "XScope"@.is_prefix_of(self.labels@["alertname"@]@)
        &&& bytes_of(self.labels@["alertname"@]@).len() <= 128
        &&& self.labels.entries@.len() <= 32
        &&& self.annotations.entries@.len() <= 16
        &&& bounded(self.labels.entries@, 2048)
        &&& bounded(self.annotations.entries@, 4096)
        &&& self.starts_at <= now + LEEWAY
        &&& self.resolved() ==> self.ends_at >= self.starts_at
    }

    /// An alert of the platform, of bounded size, that does not start in the
    /// future or end before it starts.
    pub fn validate(&self, now: Timestamp) -> (r: ServiceResult<()>)
        requires
            self.wf(),
            clock_in_range(now),
        ensures
            refused(
                r,
                if self.sound(now) {
                    None
                } else {
                    Some(Fault::Invalid("invalid bounded XScope alert notification"@))
                },
            ),
    {
        let resolved = same(self.status.as_str(), "resolved");
        let named = match self.labels.get("alertname") {
            Some(name) => starts_with(name.as_str(), "XScope") && byte_len(name.as_str()) <= 128,
            None => false,
        };
        if !(same(self.status.as_str(), "firing") || resolved) || !is_hex16(
            self.fingerprint.as_str(),
        ) || !named || self.labels.entries.len() > 32 || self.annotations.entries.len() > 16
            || !is_bounded(&self.labels.entries, 2048) || !is_bounded(
            &self.annotations.entries,
            4096,
        ) || self.starts_at > now + LEEWAY || (resolved && self.ends_at < self.starts_at) {
            return Err(invalid("invalid bounded XScope alert notification"));
        }
        Ok(())
    }

    pub open spec fn identity(self) -> Seq<char> {
        fingerprint_text(
            bytes_of(lowered(self.fingerprint@) + ":"@ + int_text(millis(self.starts_at))),
        )
    }

    /// The identity of an alert: its fingerprint and when it started.
    pub fn id(&self) -> (r: String)
        ensures
            r@ == self.identity(),
    {
        let mut text = lowercase(self.fingerprint.as_str());
        text.append(":");
        text.append(decimal(timestamp_millis(self.starts_at)).as_str());
        fingerprint(text.as_str().as_bytes())
    }
}

/// A stored alert.
#[derive(Clone, Debug)]
pub struct AlertRow {
    pub id: String,
    pub name: String,
    pub severity: String,
    pub summary: String,
    pub state: String,
    pub starts_at: Timestamp,
    pub ends_at: Option<Timestamp>,
    pub received_at: Timestamp,
    pub acknowledged_by: Option<String>,
    pub acknowledged_at: Option<Timestamp>,
}

pub open spec fn batch_sound(alerts: Seq<Alert>, now: Timestamp) -> bool {
    forall|i: int| 0 <= i < alerts.len() ==> (#[trigger] alerts[i]).sound(now)
}

pub open spec fn batch_wf(alerts: Seq<Alert>) -> bool {
    forall|i: int| 0 <= i < alerts.len() ==> (#[trigger] alerts[i]).wf()
}

pub open spec fn batch_fault(w: Webhook, now: Timestamp) -> Option<Fault> {
    if w.alerts@.len() > 100 || w.truncated_alerts != 0 {
        Some(Fault::Invalid("alert batch must contain at most 100 complete alerts"@))
    } else if !batch_sound(w.alerts@, now) {
        Some(Fault::Invalid("invalid bounded XScope alert notification"@))
    } else {
        None
    }
}

/// Which alert of a batch stands for each identity: the first one, unless a
/// later one says that it is resolved.
pub open spec fn representatives(alerts: Seq<Alert>) -> Map<Seq<char>, usize>
    decreases alerts.len(),
{
    if alerts.len() == 0 {
        Map::empty()
    } else {
        let before = representatives(alerts.drop_last());
        let last = alerts.last();
        if before.dom().contains(last.identity()) && !last.resolved() {
            before
        } else {
            before.insert(last.identity(), (alerts.len() - 1) as usize)
        }
    }
}

/// The alerts of a batch that are written, by identity and in ascending order
/// of it, so that overlapping batches take their locks in the same order. Each
/// is given by its place in the batch.
pub fn receive_alerts(request: &Webhook, now: Timestamp) -> (r: ServiceResult<TextMap<usize>>)
    requires
        batch_wf(request.alerts@),
        clock_in_range(now),
    ensures
        refused(r, batch_fault(*request, now)),
        r matches Ok(chosen) ==> chosen.wf() && chosen@ == representatives(request.alerts@),
{
    let alerts = &request.alerts;
    if alerts.len() > 100 || request.truncated_alerts != 0 {
        return Err(invalid("alert batch must contain at most 100 complete alerts"));
    }
    let mut i: usize = 0;
    while i < alerts.len()
        invariant
            i <= alerts@.len() <= 100,
            alerts@ == request.alerts@,
            request.truncated_alerts == 0,
            batch_wf(alerts@),
            clock_in_range(now),
            forall|j: int| 0 <= j < i ==> (#[trigger] alerts@[j]).sound(now),
        decreases alerts.len() - i,
    {
        if let Err(e) = alerts[i].validate(now) {
            assert(!request.alerts@[i as int].sound(now));
            return Err(e);
        }
        i += 1;
    }
    let mut chosen: TextMap<usize> = TextMap::new();
    let mut k: usize = 0;
    assert(alerts@.take(0) =~= Seq::empty());
    while k < alerts.len()
        invariant
            k <= alerts@.len() <= 100,
            chosen.wf(),
            chosen@ == representatives(alerts@.take(k as int)),
        decreases alerts.len() - k,
    {
        assert(alerts@.take(k as int + 1).drop_last() =~= alerts@.take(k as int));
        let id = alerts[k].id();
        let resolved = same(alerts[k].status.as_str(), "resolved");
        if resolved || chosen.get(id.as_str()).is_none() {
            chosen.insert(id.as_str(), k);
        }
        k += 1;
    }
    assert(alerts@.take(k as int) =~= alerts@);
    Ok(chosen)
}

pub open spec fn severity_of(labels: Map<Seq<char>, String>) -> Seq<char> {
    if labels.dom().contains("severity"@) && (labels["severity"@]@ == "critical"@
        || labels["severity"@]@ == "warning"@ || labels["severity"@]@ == "info"@) {
        labels["severity"@]@
    } else {
        "warning"@
    }
}

/// An alert that was not known before.
pub open spec fn alert_row(a: Alert, now: Timestamp, row: AlertRow) -> bool {
    &&& row.id@ == a.identity()
    &&& row.name@ == a.labels@["alertname"@]@
    &&& row.severity@ == severity_of(a.labels@)
    &&& row.summary@ == if a.annotations@.dom().contains("summary"@) {
        a.annotations@["summary"@]@
    } else {
        ""@
    }
    &&& row.state@ == a.status@
    &&& row.starts_at == a.starts_at
    &&& row.ends_at == if a.resolved() {
        Some(a.ends_at)
    } else {
        None
    }
    &&& row.received_at == now
    &&& row.acknowledged_by is None
    &&& row.acknowledged_at is None
}

/// What a notice writes, if anything, over the row that was there.
pub open spec fn merges(
    alert: Alert,
    old_row: Option<AlertRow>,
    now: Timestamp,
    written: Option<AlertRow>,
) -> bool {
    &&& written is Some <==> old_row is None || (alert.resolved() && old_row->0.state@
        != "resolved"@)
    &&& written matches Some(row) ==> match old_row {
        None => alert_row(alert, now, row),
        Some(before) => row.state@ == "resolved"@ && row == (AlertRow {
            state: row.state,
            ends_at: Some(alert.ends_at),
            received_at: now,
            ..before
        }),
    }
}

/// The stored row of an alert, where it is to be written: a new one, or one
/// that becomes resolved. A late or repeated notice never takes a resolution
/// or an acknowledgement back.
pub fn merge_alert(alert: &Alert, old_row: Option<AlertRow>, now: Timestamp) -> (r: Option<AlertRow>)
    requires
        alert.wf(),
        alert.labels@.dom().contains("alertname"@),
    ensures
        merges(*alert, old_row, now, r),
{
    let resolved = same(alert.status.as_str(), "resolved");
    match old_row {
        Some(before) => {
            if resolved && !same(before.state.as_str(), "resolved") {
                Some(
                    AlertRow {
                        state: "resolved".to_owned(),
                        ends_at: Some(alert.ends_at),
                        received_at: now,
                        ..before
                    },
                )
            } else {
                None
            }
        },
        None => {
            let name = match alert.labels.get("alertname") {
                Some(name) => name.clone(),
                None => "".to_owned(),
            };
            let severity = match alert.labels.get("severity") {
                Some(text) => if same(text.as_str(), "critical") || same(text.as_str(), "warning")
                    || same(text.as_str(), "info") {
                    text.clone()
                } else {
                    "warning".to_owned()
                },
                None => "warning".to_owned(),
            };
            let summary = match alert.annotations.get("summary") {
                Some(text) => text.clone(),
                None => "".to_owned(),
            };
            Some(
                AlertRow {
                    id: alert.id(),
                    name,
                    severity,
                    summary,
                    state: alert.status.clone(),
                    starts_at: alert.starts_at,
                    ends_at: if resolved {
                        Some(alert.ends_at)
                    } else {
                        None
                    },
                    received_at: now,
                    acknowledged_by: None,
                    acknowledged_at: None,
                },
            )
        },
    }
}

/// Whether a page of alerts may be asked for.
pub fn ops_alerts(query: &AlertQuery) -> (r: ServiceResult<()>)
    ensures
        refused(
            r,
            if (query.state matches Some(s) && s@ != "firing"@ && s@ != "resolved"@) || (query.after
                matches Some(after) && !digest_text(after@)) {
                Some(Fault::Invalid("invalid alert page"@))
            } else {
                None
            },
        ),
{
    let state_fits = match &query.state {
        Some(state) => same(state.as_str(), "firing") || same(state.as_str(), "resolved"),
        None => true,
    };
    let after_fits = match &query.after {
        Some(after) => is_digest(after.as_str()),
        None => true,
    };
    if !state_fits || !after_fits {
        return Err(invalid("invalid alert page"));
    }
    Ok(())
}

/// How many alerts a page holds.
pub const ALERT_PAGE: usize = 50;

/// Cuts fetched alerts down to a page. `rows` holds up to one row more than a
/// page; the cursor of the next page is the last row that stays.
pub fn alert_page(rows: &mut Vec<AlertRow>) -> (r: Option<String>)
    requires
        old(rows)@.len() <= ALERT_PAGE + 1,
    ensures
        final(rows)@ == if old(rows)@.len() > ALERT_PAGE {
            old(rows)@.drop_last()
        } else {
            old(rows)@
        },
        r == if old(rows)@.len() > ALERT_PAGE {
            Some(final(rows)@.last().id)
        } else {
            None
        },
{
    if rows.len() > ALERT_PAGE {
        let ghost before = rows@;
        let _ = rows.pop();
        assert(rows@ =~= before.drop_last());
        Some(rows[rows.len() - 1].id.clone())
    } else {
        None
    }
}

/// The row of an alert that somebody has seen.
pub open spec fn acknowledges(
    row: AlertRow,
    actor: Seq<char>,
    now: Timestamp,
    next: AlertRow,
) -> bool {
    &&& next.acknowledged_by matches Some(by) && by@ == actor
    &&& next == (AlertRow {
        acknowledged_at: Some(now),
        acknowledged_by: next.acknowledged_by,
        ..row
    })
}

/// Acknowledges an alert, once. It stays as resolved or firing as it was.
pub fn acknowledge_alert(
    row: Option<AlertRow>,
    actor: &str,
    request: &Acknowledge,
    now: Timestamp,
) -> (r: ServiceResult<Option<(AlertRow, AuditDraft)>>)
    ensures
        refused(
            r,
            if blank(request.reason@) || bytes_of(request.reason@).len() > 1024 {
                Some(Fault::Invalid("bounded acknowledgement reason required"@))
            } else if row is None {
                Some(Fault::NotFound)
            } else {
                None
            },
        ),
        r matches Ok(made) ==> (made is Some <==> row->0.acknowledged_at is None),
        r matches Ok(Some(made)) ==> acknowledges(row->0, actor@, now, made.0) && audited(
            made.1,
            actor@,
            "alert.acknowledge"@,
            row->0.id@,
            AuditPayload::Reason(request.reason),
        ),
{
    if is_blank(request.reason.as_str()) || byte_len(request.reason.as_str()) > 1024 {
        return Err(invalid("bounded acknowledgement reason required"));
    }
    let row = match row {
        Some(row) => row,
        None => return Err(ServiceError::NotFound),
    };
    if row.acknowledged_at.is_some() {
        return Ok(None);
    }
    let trail = audit(
        actor,
        "alert.acknowledge",
        row.id.as_str(),
        AuditPayload::Reason(request.reason.clone()),
    );
    let row = AlertRow {
        acknowledged_at: Some(now),
        acknowledged_by: Some(actor.to_owned()),
        ..row
    };
    Ok(Some((row, trail)))
}

/// What the monitoring says of the backups: each reading in the text of its
/// sample.
pub struct BackupReadings {
    pub last_successful_at: Option<String>,
    pub last_scheduled_at: Option<String>,
    pub active_jobs: Option<String>,
    pub suspended: Option<String>,
    pub created_at: Option<String>,
}

/// The name of the metric that a row is a sample of.
pub open spec fn is_sample_of(row: Json, metric: Seq<char>) -> bool {
    says(inner(member(row, "metric"@), "__name__"@), metric)
}

/// The text of a sample: the second of its value.
pub open spec fn sample_text(row: Json) -> Option<Seq<char>> {
    match member(row, "value"@) {
        Some(Json::Array(pair)) => if pair.len() > 1 {
            match pair[1] {
                Json::Text(text) => Some(text),
                _ => None,
            }
        } else {
            None
        },
        _ => None,
    }
}

pub open spec fn samples_of(rows: Seq<Json>, metric: Seq<char>) -> Seq<Json> {
    rows.filter(|row: Json| is_sample_of(row, metric))
}

/// The rows of an answer, where it is a vector.
pub open spec fn answer_rows(json: Json) -> Option<Seq<Json>> {
    let data = member(json, "data"@);
    if !says(member(json, "status"@), "success"@) || !says(inner(data, "resultType"@), "vector"@) {
        None
    } else {
        match inner(data, "result"@) {
            Some(Json::Array(rows)) => Some(rows),
            _ => None,
        }
    }
}

/// A metric has at most one sample, and that has a text.
pub open spec fn readable(rows: Seq<Json>, metric: Seq<char>) -> bool {
    let samples = samples_of(rows, metric);
    samples.len() == 0 || (samples.len() == 1 && sample_text(samples[0]) is Some)
}

/// What is read of a metric.
pub open spec fn reading_of(rows: Seq<Json>, metric: Seq<char>) -> Option<Seq<char>> {
    let samples = samples_of(rows, metric);
    if samples.len() == 0 {
        None
    } else {
        sample_text(samples[0])
    }
}

fn sample(row: &serde_json::Value) -> (r: Option<String>)
    ensures
        match r {
            Some(text) => sample_text(json_of(*row)) == Some(text@),
            None => sample_text(json_of(*row)) is None,
        },
{
    let pair = match get(row, "value") {
        Some(value) => match as_array(value) {
            Some(pair) => pair,
            None => return None,
        },
        None => return None,
    };
    assert(elements(pair@).len() == pair@.len());
    if pair.len() < 2 {
        return None;
    }
    assert(elements(pair@)[1] == json_of(pair@[1]));
    match as_str(&pair[1]) {
        Some(text) => Some(text.to_owned()),
        None => None,
    }
}

fn is_sample(row: &serde_json::Value, metric: &str) -> (r: bool)
    ensures
        r == is_sample_of(json_of(*row), metric@),
{
    match get(row, "metric") {
        Some(labels) => does_say(get(labels, "__name__"), metric),
        None => false,
    }
}

fn reading(rows: &Vec<serde_json::Value>, metric: &str) -> (r: Result<Option<String>, ()>)
    ensures
        match r {
            Ok(found) => readable(elements(rows@), metric@) && text_of(found) == reading_of(
                elements(rows@),
                metric@,
            ),
            Err(_) => !readable(elements(rows@), metric@),
        },
{
    let ghost all = elements(rows@);
    let ghost wanted = |row: Json| is_sample_of(row, metric@);
    let mut first: Option<usize> = None;
    let mut count: usize = 0;
    let mut i: usize = 0;
    while i < rows.len()
        invariant
            i <= rows.len(),
            all == elements(rows@),
            wanted == (|row: Json| is_sample_of(row, metric@)),
            count == all.take(i as int).filter(wanted).len(),
            count <= i,
            match first {
                Some(k) => count > 0 && k < i && all.take(i as int).filter(wanted)[0] == json_of(
                    rows@[k as int],
                ),
                None => count == 0,
            },
        decreases rows.len() - i,
    {
        proof {
            broadcast use Seq::lemma_filter_push;

            assert(all.take(i as int + 1) =~= all.take(i as int).push(all[i as int]));
            assert(all[i as int] == json_of(rows@[i as int]));
            assert(all.take(i as int + 1).filter(wanted) == if wanted(all[i as int]) {
                all.take(i as int).filter(wanted).push(all[i as int])
            } else {
                all.take(i as int).filter(wanted)
            });
        }
        if is_sample(&rows[i], metric) {
            if first.is_none() {
                first = Some(i);
            }
            count += 1;
        }
        i += 1;
    }
    assert(all.take(all.len() as int) =~= all);
    assert(all.filter(wanted) == samples_of(all, metric@));
    if count > 1 {
        return Err(());
    }
    match first {
        Some(k) => match sample(&rows[k]) {
            Some(text) => Ok(Some(text)),
            None => Err(()),
        },
        None => Ok(None),
    }
}

/// The metrics of the backups, in the order of the readings.
pub open spec fn backup_metrics() -> Seq<Seq<char>> {
    seq![
        "kube_cronjob_status_last_successful_time"@,
        "kube_cronjob_status_last_schedule_time"@,
        "kube_cronjob_status_active"@,
        "kube_cronjob_spec_suspend"@,
        "kube_cronjob_created"@,
    ]
}

impl BackupReadings {
    /// The readings, in the order of their metrics.
    pub open spec fn texts(self) -> Seq<Option<Seq<char>>> {
        seq![
            text_of(self.last_successful_at),
            text_of(self.last_scheduled_at),
            text_of(self.active_jobs),
            text_of(self.suspended),
            text_of(self.created_at),
        ]
    }
}

/// An answer that every reading can be taken from.
pub open spec fn usable_answer(json: Json) -> bool {
    &&& answer_rows(json) is Some
    &&& forall|i: int|
        0 <= i < 5 ==> readable(answer_rows(json)->0, #[trigger] backup_metrics()[i])
}

fn rows_of(answer: &serde_json::Value) -> (r: Option<&Vec<serde_json::Value>>)
    ensures
        match r {
            Some(rows) => answer_rows(json_of(*answer)) == Some(elements(rows@)),
            None => answer_rows(json_of(*answer)) is None,
        },
{
    if !does_say(get(answer, "status"), "success") {
        return None;
    }
    let data = match get(answer, "data") {
        Some(data) => data,
        None => return None,
    };
    if !does_say(get(data, "resultType"), "vector") {
        return None;
    }
    match get(data, "result") {
        Some(result) => as_array(result),
        None => None,
    }
}

fn readings(answer: &serde_json::Value) -> (r: Result<BackupReadings, ()>)
    ensures
        r is Ok <==> usable_answer(json_of(*answer)),
        r matches Ok(found) ==> found.texts() == backup_metrics().map_values(
            |metric: Seq<char>| reading_of(answer_rows(json_of(*answer))->0, metric),
        ),
{
    let rows = match rows_of(answer) {
        Some(rows) => rows,
        None => return Err(()),
    };
    let ghost all = elements(rows@);
    let last_successful_at = reading(rows, "kube_cronjob_status_last_successful_time");
    let last_scheduled_at = reading(rows, "kube_cronjob_status_last_schedule_time");
    let active_jobs = reading(rows, "kube_cronjob_status_active");
    let suspended = reading(rows, "kube_cronjob_spec_suspend");
    let created_at = reading(rows, "kube_cronjob_created");
    proof {
        let metrics = backup_metrics();
        assert(readable(all, metrics[0]) <==> last_successful_at is Ok);
        assert(readable(all, metrics[1]) <==> last_scheduled_at is Ok);
        assert(readable(all, metrics[2]) <==> active_jobs is Ok);
        assert(readable(all, metrics[3]) <==> suspended is Ok);
        assert(readable(all, metrics[4]) <==> created_at is Ok);
    }
    let found = BackupReadings {
        last_successful_at: last_successful_at?,
        last_scheduled_at: last_scheduled_at?,
        active_jobs: active_jobs?,
        suspended: suspended?,
        created_at: created_at?,
    };
    Ok(found)
}

/// The readings in an answer of the monitoring: one that is not a vector, has
/// two samples of a metric or a sample without a text is not usable. Whether a
/// text is a number is for the reader of the readings.
pub fn backup_readings(answer: &serde_json::Value) -> (r: ServiceResult<BackupReadings>)
    ensures
        match r {
            Ok(found) => {
                &&& usable_answer(json_of(*answer))
                &&& found.texts() == backup_metrics().map_values(
                    |metric: Seq<char>| reading_of(answer_rows(json_of(*answer))->0, metric),
                )
            },
            Err(e) => !usable_answer(json_of(*answer)) && e@ == Fault::Dependency(
                "backup telemetry unavailable"@,
            ),
        },
{
    match readings(answer) {
        Ok(found) => Ok(found),
        Err(_) => Err(ServiceError::Dependency("backup telemetry unavailable".to_owned())),
    }
}

/// The most bytes of an answer of the monitoring.
pub const MAX_BACKUP_BYTES: usize = 65_536;

/// Adds a part of an answer of the monitoring to what was read of it, within the
/// bound.
pub fn extend_backup(bytes: &mut Vec<u8>, chunk: &[u8]) -> (r: ServiceResult<()>)
    requires
        old(bytes)@.len() <= MAX_BACKUP_BYTES,
    ensures
        final(bytes)@.len() <= MAX_BACKUP_BYTES,
        refused(
            r,
            if old(bytes)@.len() + chunk@.len() > MAX_BACKUP_BYTES {
                Some(Fault::Dependency("backup telemetry unavailable"@))
            } else {
                None
            },
        ),
        final(bytes)@ == if r is Ok {
            old(bytes)@ + chunk@
        } else {
            old(bytes)@
        },
{
    if chunk.len() > MAX_BACKUP_BYTES - bytes.len() {
        return Err(ServiceError::Dependency("backup telemetry unavailable".to_owned()));
    }
    bytes.extend_from_slice(chunk);
    Ok(())
}

/// The readings in the bytes of an answer of the monitoring.
pub fn backup_answer(body: &[u8]) -> (r: ServiceResult<BackupReadings>)
    ensures
        match r {
            Ok(found) => {
                &&& document(body@) is Some
                &&& usable_answer(document(body@)->0)
                &&& found.texts() == backup_metrics().map_values(
                    |metric: Seq<char>| reading_of(answer_rows(document(body@)->0)->0, metric),
                )
            },
            Err(e) => {
                &&& !(document(body@) matches Some(json) && usable_answer(json))
                &&& e@ == Fault::Dependency("backup telemetry unavailable"@)
            },
        },
{
    match parse(body) {
        Some(answer) => backup_readings(&answer),
        None => Err(ServiceError::Dependency("backup telemetry unavailable".to_owned())),
    }
}

/// No notice takes back what is known of an alert: a resolved one stays as it is,
/// and an acknowledgement is kept.
pub proof fn law_notices_take_nothing_back(
    alert: Alert,
    before: AlertRow,
    now: Timestamp,
    written: Option<AlertRow>,
)
    requires
        merges(alert, Some(before), now, written),
    ensures
        before.state@ == "resolved"@ ==> written is None,
        written matches Some(row) ==> row.acknowledged_by == before.acknowledged_by
            && row.acknowledged_at == before.acknowledged_at && row.id == before.id,
{
}

/// To acknowledge an alert is not to resolve it.
pub proof fn law_acknowledging_resolves_nothing(
    row: AlertRow,
    actor: Seq<char>,
    now: Timestamp,
    next: AlertRow,
)
    requires
        acknowledges(row, actor, now, next),
    ensures
        next.state == row.state,
        next.ends_at == row.ends_at,
{
}

/// A batch of alerts is taken in whole: up to a hundred, none left out, each of them named,
/// bounded, and not from the future.
pub proof fn law_alert_batches_are_complete(w: Webhook, now: Timestamp, i: int)
    requires
        batch_fault(w, now) is None,
        0 <= i < w.alerts@.len(),
    ensures
        w.alerts@.len() < 101,
        w.truncated_alerts == 0,
        w.alerts@[i].status@ == "firing"@ || w.alerts@[i].status@ == "resolved"@,
        w.alerts@[i].starts_at <= now + 300_000_000,
        w.alerts@[i].status@ == "resolved"@ ==> w.alerts@[i].ends_at >= w.alerts@[i].starts_at,
        w.alerts@[i].labels.entries@.len() < 33,
        w.alerts@[i].annotations.entries@.len() < 17,
        bytes_of(w.alerts@[i].fingerprint@).len() == 16,
        w.alerts@[i].labels@.dom().contains("alertname"@),
{
    assert(w.alerts@[i].sound(now));
}

/// An alert is stored when it is new, and changed only to be resolved; what it was about stays
/// as it was.
pub proof fn law_alerts_are_stored_once_and_resolved_once(
    alert: Alert,
    old_row: Option<AlertRow>,
    now: Timestamp,
    written: Option<AlertRow>,
)
    requires
        merges(alert, old_row, now, written),
    ensures
        old_row is None ==> written is Some,
        old_row is Some ==> (written is Some <==> alert.status@ == "resolved"@ && old_row->0.state@
            != "resolved"@),
        written is Some && old_row is Some ==> written->0.state@ == "resolved"@
            && written->0.ends_at == Some(alert.ends_at) && written->0.name == old_row->0.name
            && written->0.starts_at == old_row->0.starts_at && written->0.severity
            == old_row->0.severity,
        written is Some && old_row is None ==> written->0.state@ == alert.status@
            && written->0.starts_at == alert.starts_at && written->0.acknowledged_by is None && (
        written->0.ends_at is Some <==> alert.status@ == "resolved"@),
{
}

/// Alerts that are one and the same are told by their fingerprint and the millisecond that they
/// started in; of several notices of one alert the last counts, unless a resolution came before
/// it.
pub proof fn law_resolutions_outlast_later_notices(alerts: Seq<Alert>, later: Alert)
    requires
        alerts.len() < usize::MAX,
    ensures
        ({
            let before = representatives(alerts);
            let after = representatives(alerts.push(later));
            &&& after.dom().contains(later.identity())
            &&& before.dom().contains(later.identity()) && later.status@ != "resolved"@ ==> after
                == before
            &&& !before.dom().contains(later.identity()) || later.status@ == "resolved"@
                ==> after[later.identity()] == alerts.len()
            &&& forall|k: Seq<char>|
                k != later.identity() ==> (#[trigger] after.dom().contains(k)
                    == before.dom().contains(k)) && (before.dom().contains(k) ==> after[k]
                    == before[k])
        }),
{
    assert(alerts.push(later).drop_last() =~= alerts);
    assert(alerts.push(later).last() == later);
}

/// A severity is one of three, and a warning where none of them is given.
pub proof fn law_severities_are_one_of_three(labels: Map<Seq<char>, String>)
    ensures
        severity_of(labels) == "critical"@ || severity_of(labels) == "warning"@ || severity_of(
            labels,
        ) == "info"@,
        !labels.dom().contains("severity"@) ==> severity_of(labels) == "warning"@,
        labels.dom().contains("severity"@) && labels["severity"@]@ == "critical"@ ==> severity_of(
            labels,
        ) == "critical"@,
{
}

} // verus!
