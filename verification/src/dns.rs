//! What one resolver answered: the lookup outcome as plain values, and its
//! classification into a propagation signal.

use std::time::Duration;

use hickory_resolver::proto::op::ResponseCode;
use hickory_resolver::proto::rr::RecordType;
use vstd::prelude::*;
use vstd::string::*;

use crate::answer_set::{
    ascending_set, insert_ascending, lemma_ascending_set, lemma_ascending_set_of_members,
    lemma_is_ascending_set, lemma_push_members, strictly_ascending, texts,
};
use crate::text::{codes, contains_ignoring_ascii_case, has_run, lower_codes};

verus! {

/// DNS response code SERVFAIL (RFC 1035).
pub const RCODE_SERVFAIL: u16 = 2;

/// DNS response code REFUSED (RFC 1035).
pub const RCODE_REFUSED: u16 = 5;

/// Longest error text kept, in characters.
pub const ERROR_TEXT_LIMIT: usize = 48;

/// What one resolver said about the queried record.
#[derive(Debug, Clone)]
pub enum QueryResult {
    /// Record values (rdata strings) and the minimum TTL seen.
    Records { values: Vec<String>, min_ttl: u32 },
    /// The server answered that the record does not exist (NXDOMAIN or
    /// NOERROR with an empty answer section). This is a real propagation
    /// signal — the server's view is "nothing there" — so it counts toward
    /// the responding total.
    NoRecords(String),
    /// No usable answer: timeout, network error, or the server refused to
    /// serve us (REFUSED/SERVFAIL). Says nothing about propagation, so these
    /// are excluded from the percentage.
    Error(String),
}

/// The mathematical content of a [`QueryResult`].
pub enum ResultView {
    Records { values: Seq<Seq<char>>, min_ttl: u32 },
    NoRecords(Seq<char>),
    Error(Seq<char>),
}

impl View for QueryResult {
    type V = ResultView;

    open spec fn view(&self) -> ResultView {
        match self {
            QueryResult::Records { values, min_ttl } => ResultView::Records {
                values: texts(values@),
                min_ttl: *min_ttl,
            },
            QueryResult::NoRecords(code) => ResultView::NoRecords(code@),
            QueryResult::Error(message) => ResultView::Error(message@),
        }
    }
}

/// One finished query, tagged with the resolver it went to and the round
/// (generation) it belongs to.
#[derive(Debug)]
pub struct QueryOutcome {
    pub resolver_index: usize,
    pub generation: u64,
    pub result: QueryResult,
    pub elapsed: Duration,
}

/// One record of an answer section: its type code, its data rendered as
/// text (absent when the record carries no data), and its TTL.
pub struct AnswerRecord {
    pub record_type: u16,
    pub data: Option<String>,
    pub ttl: u32,
}

/// Why a lookup produced no answer section.
pub enum LookupFailure {
    /// The server answered without records, with this response code.
    NoRecordsFound { response_code: u16 },
    /// The resolver's own request timed out.
    Timeout,
    /// Any other failure, with its message.
    Other(String),
}

/// How a lookup against one resolver ended.
pub enum LookupOutcome {
    /// The overall deadline passed before the resolver finished.
    TimedOut,
    /// The resolver reported a failure.
    Failed(LookupFailure),
    /// The resolver returned these records, in answer order.
    Answered(Vec<AnswerRecord>),
}

/// The text that hickory-proto's `Display` gives `RecordType::from(code)`.
pub uninterp spec fn record_type_text(code: u16) -> Seq<char>;

/// The text that hickory-proto's `Display` gives `ResponseCode::from(code)`.
pub uninterp spec fn response_code_text(code: u16) -> Seq<char>;

/// Renders a record type code through hickory-proto's `RecordType::from`
/// and its `Display` impl (the type's mnemonic, such as "A" or "CNAME", or
/// "Unknown"). The contract only names the result: the table of mnemonics
/// is not restated here.
#[verifier::external_body]
pub(crate) fn record_type_name(code: u16) -> (s: String)
    ensures
        s@ == record_type_text(code),
{
    let record_type: RecordType = code.into();
    record_type.to_string()
}

/// Renders a response code through hickory-proto's `ResponseCode::from`
/// and its `Display` impl (a phrase such as "Non-Existent Domain", or
/// "Unknown response code"). The contract only names the result: the table
/// of phrases is not restated here.
#[verifier::external_body]
pub(crate) fn response_code_name(code: u16) -> (s: String)
    ensures
        s@ == response_code_text(code),
{
    let response_code: ResponseCode = code.into();
    response_code.to_string()
}

/// The short form of an error message: "timeout" when the message mentions
/// a timeout, "refused" when it mentions a refusal (both case-insensitively
/// for ASCII letters), else its first 48 characters.
pub open spec fn short_error_text(message: Seq<char>) -> Seq<char> {
    let lower = lower_codes(message);
    if has_run(lower, codes("timed out"@)) || has_run(lower, codes("timeout"@)) {
        "timeout"@
    } else if has_run(lower, codes("refused"@)) {
        "refused"@
    } else if message.len() <= ERROR_TEXT_LIMIT {
        message
    } else {
        message.take(ERROR_TEXT_LIMIT as int)
    }
}

/// Shortens a resolver error message for display.
pub fn short_error(message: &str) -> (s: String)
    ensures
        s@ == short_error_text(message@),
{
    if contains_ignoring_ascii_case(message, "timed out") || contains_ignoring_ascii_case(
        message,
        "timeout",
    ) {
        String::from_str("timeout")
    } else if contains_ignoring_ascii_case(message, "refused") {
        String::from_str("refused")
    } else {
        let n = message.unicode_len();
        let k = if n < ERROR_TEXT_LIMIT {
            n
        } else {
            ERROR_TEXT_LIMIT
        };
        let kept = message.substring_char(0, k);
        proof {
            if n <= ERROR_TEXT_LIMIT {
                assert(message@.subrange(0, k as int) =~= message@);
            }
        }
        kept.to_owned()
    }
}

/// What a failure says about propagation.
pub open spec fn failure_result(failure: LookupFailure) -> ResultView {
    match failure {
        LookupFailure::NoRecordsFound { response_code } => if response_code == RCODE_REFUSED {
            ResultView::Error("refused"@)
        } else if response_code == RCODE_SERVFAIL {
            ResultView::Error("SERVFAIL"@)
        } else {
            ResultView::NoRecords(response_code_text(response_code))
        },
        LookupFailure::Timeout => ResultView::Error("timeout"@),
        LookupFailure::Other(message) => ResultView::Error(short_error_text(message@)),
    }
}

/// The value shown for a record with data: the data itself when the record
/// has the queried type, else the record's type and its data, so that (for
/// example) CNAME hops stay comparable across resolvers.
pub open spec fn answer_label(record: AnswerRecord, rtype: u16) -> Seq<char> {
    if record.record_type == rtype {
        record.data.unwrap()@
    } else {
        record_type_text(record.record_type) + " "@ + record.data.unwrap()@
    }
}

/// The labels of the records that carry data, in answer order.
pub open spec fn answer_labels(records: Seq<AnswerRecord>, rtype: u16) -> Seq<Seq<char>>
    decreases records.len(),
{
    if records.len() == 0 {
        Seq::empty()
    } else {
        let earlier = answer_labels(records.drop_last(), rtype);
        if records.last().data is Some {
            earlier.push(answer_label(records.last(), rtype))
        } else {
            earlier
        }
    }
}

/// The least TTL among the records that carry data (`u32::MAX` if none does).
pub open spec fn answer_min_ttl(records: Seq<AnswerRecord>) -> u32
    decreases records.len(),
{
    if records.len() == 0 {
        u32::MAX
    } else {
        let earlier = answer_min_ttl(records.drop_last());
        if records.last().data is Some && records.last().ttl < earlier {
            records.last().ttl
        } else {
            earlier
        }
    }
}

/// What a lookup outcome says about propagation for the queried type.
pub open spec fn lookup_result(outcome: LookupOutcome, rtype: u16) -> ResultView {
    match outcome {
        LookupOutcome::TimedOut => ResultView::Error("timeout"@),
        LookupOutcome::Failed(failure) => failure_result(failure),
        LookupOutcome::Answered(records) => answer_result(records@, rtype),
    }
}

/// What an answer section says for the queried type: its normalized values
/// and least TTL, or "no records" when no record carries data.
pub open spec fn answer_result(records: Seq<AnswerRecord>, rtype: u16) -> ResultView {
    let labels = answer_labels(records, rtype);
    if labels.len() == 0 {
        ResultView::NoRecords("empty answer"@)
    } else {
        ResultView::Records { values: ascending_set(labels), min_ttl: answer_min_ttl(records) }
    }
}

/// Classifies a failed lookup.
pub fn classify_failure(failure: LookupFailure) -> (r: QueryResult)
    ensures
        r@ == failure_result(failure),
{
    match failure {
        LookupFailure::NoRecordsFound { response_code } => {
            if response_code == RCODE_REFUSED {
                QueryResult::Error(String::from_str("refused"))
            } else if response_code == RCODE_SERVFAIL {
                QueryResult::Error(String::from_str("SERVFAIL"))
            } else {
                QueryResult::NoRecords(response_code_name(response_code))
            }
        },
        LookupFailure::Timeout => QueryResult::Error(String::from_str("timeout")),
        LookupFailure::Other(message) => QueryResult::Error(short_error(message.as_str())),
    }
}

/// The display value of one record that carries data.
fn label_of(record: &AnswerRecord, rtype: u16) -> (s: String)
    requires
        record.data is Some,
    ensures
        s@ == answer_label(*record, rtype),
{
    let data = record.data.as_ref().unwrap();
    if record.record_type == rtype {
        data.clone()
    } else {
        let mut label = record_type_name(record.record_type);
        label.append(" ");
        label.append(data.as_str());
        label
    }
}

/// Collects the records' labels into an ascending answer set with no
/// repeats (sorting and de-duplicating them), and their least TTL.
pub fn normalize_answer(records: &Vec<AnswerRecord>, rtype: u16) -> (r: (Vec<String>, u32))
    ensures
        texts(r.0@) == ascending_set(answer_labels(records@, rtype)),
        r.1 == answer_min_ttl(records@),
        r.0@.len() == 0 <==> answer_labels(records@, rtype).len() == 0,
        r.0@.len() == 0 <==> !carries_data(records@),
        forall|i: int|
            0 <= i < records@.len() && (#[trigger] records@[i]).data is Some ==> r.1
                <= records@[i].ttl,
        carries_data(records@) ==> exists|i: int|
            0 <= i < records@.len() && (#[trigger] records@[i]).data is Some && records@[i].ttl
                == r.1,
{
    proof {
        lemma_least_ttl(records@, rtype);
    }
    let mut values: Vec<String> = Vec::new();
    let mut min_ttl: u32 = u32::MAX;
    let mut i: usize = 0;
    assert(records@.take(0) =~= Seq::<AnswerRecord>::empty());
    assert(texts(values@).to_set() =~= answer_labels(records@.take(0), rtype).to_set());
    while i < records.len()
        invariant
            i <= records.len(),
            strictly_ascending(texts(values@)),
            texts(values@).to_set() == answer_labels(records@.take(i as int), rtype).to_set(),
            min_ttl == answer_min_ttl(records@.take(i as int)),
        decreases records.len() - i,
    {
        let ghost before = records@.take(i as int);
        let ghost after = records@.take(i + 1);
        assert(after.drop_last() =~= before);
        assert(after.last() == records@[i as int]);
        let record = &records[i];
        if record.data.is_some() {
            if record.ttl < min_ttl {
                min_ttl = record.ttl;
            }
            let label = label_of(record, rtype);
            insert_ascending(&mut values, label);
            assert(answer_labels(after, rtype) == answer_labels(before, rtype).push(label@));
            proof { lemma_push_members(answer_labels(before, rtype), label@); }
        }
        i = i + 1;
    }
    assert(records@.take(records.len() as int) =~= records@);
    let ghost labels = answer_labels(records@, rtype);
    proof {
        lemma_is_ascending_set(texts(values@), labels);
        if labels.len() > 0 {
            assert(labels.to_set().contains(labels[0]));
            assert(texts(values@).to_set().contains(labels[0]));
        }
        if values@.len() > 0 {
            assert(texts(values@).to_set().contains(texts(values@)[0]));
        }
    }
    (values, min_ttl)
}

/// Classifies how a lookup for record type `rtype` ended: a timeout or a
/// refusal is an error (no propagation signal); "no such record" is a
/// signal; an answer becomes its normalized answer set and least TTL.
pub fn classify_lookup(outcome: LookupOutcome, rtype: u16) -> (r: QueryResult)
    ensures
        r@ == lookup_result(outcome, rtype),
        outcome matches LookupOutcome::Answered(records) ==> (r@ is Records <==> carries_data(
            records@)),
        outcome matches LookupOutcome::Answered(records) ==> (r@ is NoRecords <==> !carries_data(
            records@)),
        outcome matches LookupOutcome::Answered(records) ==> (r@ is Records ==> ttl_is_least(
            records@,
            r@->Records_min_ttl,
        )),
{
    match outcome {
        LookupOutcome::TimedOut => QueryResult::Error(String::from_str("timeout")),
        LookupOutcome::Failed(failure) => classify_failure(failure),
        LookupOutcome::Answered(records) => {
            proof {
                lemma_min_ttl_is_least(records@, rtype);
            }
            let (values, min_ttl) = normalize_answer(&records, rtype);
            if values.len() == 0 {
                QueryResult::NoRecords(String::from_str("empty answer"))
            } else {
                QueryResult::Records { values, min_ttl }
            }
        },
    }
}

/// Some record of the answer carries data.
pub open spec fn carries_data(records: Seq<AnswerRecord>) -> bool {
    exists|i: int| 0 <= i < records.len() && (#[trigger] records[i]).data is Some
}

/// `ttl` is the least TTL among the records that carry data, whatever
/// their type: no such record has a smaller TTL, and one of them has
/// exactly this TTL.
pub open spec fn ttl_is_least(records: Seq<AnswerRecord>, ttl: u32) -> bool {
    &&& forall|i: int|
        0 <= i < records.len() && (#[trigger] records[i]).data is Some ==> ttl <= records[i].ttl
    &&& exists|i: int|
        0 <= i < records.len() && (#[trigger] records[i]).data is Some && records[i].ttl == ttl
}

proof fn lemma_least_ttl(records: Seq<AnswerRecord>, rtype: u16)
    ensures
        forall|i: int|
            0 <= i < records.len() && (#[trigger] records[i]).data is Some ==> answer_min_ttl(
                records,
            ) <= records[i].ttl,
        carries_data(records) ==> ttl_is_least(records, answer_min_ttl(records)),
        !carries_data(records) ==> answer_min_ttl(records) == u32::MAX,
        answer_labels(records, rtype).len() > 0 <==> carries_data(records),
    decreases records.len(),
{
    if records.len() > 0 {
        let earlier = records.drop_last();
        lemma_least_ttl(earlier, rtype);
        let last = records.len() - 1;
        assert forall|i: int| 0 <= i < last implies #[trigger] records[i] == earlier[i] by {}
        if carries_data(records) {
            let m = answer_min_ttl(records);
            if records[last].data is Some && (records[last].ttl < answer_min_ttl(earlier)
                || !carries_data(earlier)) {
                assert(records[last].data is Some && records[last].ttl == m);
            } else {
                if !carries_data(earlier) {
                    let j = choose|j: int|
                        0 <= j < records.len() && (#[trigger] records[j]).data is Some;
                    assert(j == last) by {
                        if j < last {
                            assert(earlier[j] == records[j]);
                        }
                    }
                }
                let k = choose|k: int|
                    0 <= k < earlier.len() && (#[trigger] earlier[k]).data is Some && earlier[k].ttl
                        == answer_min_ttl(earlier);
                assert(records[k] == earlier[k]);
                assert(records[k].data is Some && records[k].ttl == m);
            }
        }
        if carries_data(earlier) {
            let k = choose|k: int| 0 <= k < earlier.len() && (#[trigger] earlier[k]).data is Some;
            assert(records[k] == earlier[k]);
        }
        if !carries_data(records) {
            assert(records[last].data is None);
            assert forall|k: int| 0 <= k < earlier.len() implies (#[trigger] earlier[k]).data is None by {
                assert(records[k] == earlier[k]);
            }
        }
        if answer_labels(records, rtype).len() > 0 && records[last].data is None {
            let k = choose|k: int| 0 <= k < earlier.len() && (#[trigger] earlier[k]).data is Some;
            assert(records[k] == earlier[k]);
        }
    }
}

/// The TTL of an answer is the least TTL among all of its records that
/// carry data, whatever their type, and an answer yields records exactly
/// when some record carries data.
pub proof fn lemma_min_ttl_is_least(records: Seq<AnswerRecord>, rtype: u16)
    ensures
        answer_result(records, rtype) is Records <==> carries_data(records),
        answer_result(records, rtype) is NoRecords <==> !carries_data(records),
        answer_result(records, rtype) matches ResultView::Records { min_ttl, .. } ==> ttl_is_least(
            records,
            min_ttl,
        ),
{
    lemma_least_ttl(records, rtype);
}

/// `value` is how record `r` is shown for a query of type `rtype`: its
/// data when it has the queried type, else its type's name, a space, and
/// its data.
pub open spec fn shows_record(value: Seq<char>, r: AnswerRecord, rtype: u16) -> bool {
    &&& r.data is Some
    &&& (r.record_type == rtype ==> value == r.data.unwrap()@)
    &&& (r.record_type != rtype ==> value == record_type_text(r.record_type) + " "@
        + r.data.unwrap()@)
}

proof fn lemma_labels_members(records: Seq<AnswerRecord>, rtype: u16)
    ensures
        forall|x: Seq<char>|
            answer_labels(records, rtype).contains(x) <==> exists|i: int|
                0 <= i < records.len() && shows_record(x, #[trigger] records[i], rtype),
    decreases records.len(),
{
    if records.len() > 0 {
        let earlier = records.drop_last();
        let last = records.len() - 1;
        lemma_labels_members(earlier, rtype);
        let l = answer_labels(records, rtype);
        let e = answer_labels(earlier, rtype);
        assert forall|x: Seq<char>|
            l.contains(x) <==> exists|i: int|
                0 <= i < records.len() && shows_record(x, #[trigger] records[i], rtype) by {
            if l.contains(x) {
                let j = choose|j: int| 0 <= j < l.len() && l[j] == x;
                if j < e.len() {
                    assert(e[j] == x);
                    assert(e.contains(x));
                    let i = choose|i: int| 0 <= i < earlier.len() && shows_record(x, #[trigger] earlier[i], rtype);
                    assert(records[i] == earlier[i]);
                } else {
                    assert(shows_record(x, records[last], rtype));
                }
            }
            if exists|i: int| 0 <= i < records.len() && shows_record(x, #[trigger] records[i], rtype) {
                let i = choose|i: int| 0 <= i < records.len() && shows_record(x, #[trigger] records[i], rtype);
                if i < last {
                    assert(earlier[i] == records[i]);
                    assert(e.contains(x));
                    let j = choose|j: int| 0 <= j < e.len() && e[j] == x;
                    assert(l[j] == x);
                } else {
                    assert(l[l.len() - 1] == x);
                }
            }
        }
    }
}

/// Each value of an answer shows some record that carries data, and every
/// record that carries data is shown by some value: its data when it has
/// the queried type, else its type's name, a space and its data.
pub proof fn lemma_values_show_records(records: Seq<AnswerRecord>, rtype: u16)
    ensures
        answer_result(records, rtype) matches ResultView::Records { values, .. } ==> {
            &&& forall|k: int|
                0 <= k < values.len() ==> exists|i: int|
                    0 <= i < records.len() && shows_record(#[trigger] values[k], #[trigger] records[i], rtype)
            &&& forall|i: int, x: Seq<char>|
                0 <= i < records.len() && shows_record(x, #[trigger] records[i], rtype) ==> #[trigger] values.contains(x)
        },
{
    lemma_labels_members(records, rtype);
    lemma_ascending_set(answer_labels(records, rtype));
    if let ResultView::Records { values, .. } = answer_result(records, rtype) {
        let labels = answer_labels(records, rtype);
        assert forall|k: int| 0 <= k < values.len() implies exists|i: int|
            0 <= i < records.len() && shows_record(#[trigger] values[k], #[trigger] records[i], rtype) by {
            assert(values.to_set().contains(values[k]));
            assert(labels.contains(values[k]));
        }
        assert forall|i: int, x: Seq<char>|
            0 <= i < records.len() && shows_record(x, #[trigger] records[i], rtype) implies #[trigger] values.contains(x) by {
            assert(labels.contains(x));
            assert(values.to_set().contains(x));
        }
    }
}

/// The values of an answer are in ascending order, hold no repeats, are
/// exactly the labels of the records that carry data, and are never empty.
pub proof fn lemma_answer_values_normalized(records: Seq<AnswerRecord>, rtype: u16)
    ensures
        answer_result(records, rtype) matches ResultView::Records { values, .. } ==> {
            &&& strictly_ascending(values)
            &&& values.to_set() == answer_labels(records, rtype).to_set()
            &&& values.len() > 0
        },
{
    lemma_ascending_set(answer_labels(records, rtype));
}

/// Answers that hold the same values, in any order and with any repeats,
/// classify alike and get identical value lists, so they compare equal.
pub proof fn lemma_answer_order_irrelevant(a: Seq<AnswerRecord>, b: Seq<AnswerRecord>, rtype: u16)
    requires
        answer_labels(a, rtype).to_set() == answer_labels(b, rtype).to_set(),
    ensures
        answer_result(a, rtype) is Records <==> answer_result(b, rtype) is Records,
        answer_result(a, rtype) is Records ==> answer_result(a, rtype)->Records_values
            == answer_result(b, rtype)->Records_values,
{
    lemma_ascending_set_of_members(answer_labels(a, rtype), answer_labels(b, rtype));
    lemma_ascending_set(answer_labels(a, rtype));
    lemma_ascending_set(answer_labels(b, rtype));
}

/// A REFUSED or SERVFAIL answer says nothing about whether the record
/// exists, so it is an error; any other code without records means the
/// server holds no such record.
pub proof fn lemma_refusal_is_no_signal(response_code: u16)
    ensures
        failure_result(LookupFailure::NoRecordsFound { response_code }) is Error <==> (
        response_code == RCODE_REFUSED || response_code == RCODE_SERVFAIL),
        failure_result(LookupFailure::NoRecordsFound { response_code }) is NoRecords <==> !(
        response_code == RCODE_REFUSED || response_code == RCODE_SERVFAIL),
{
}

/// A shortened error message never exceeds the length limit.
pub proof fn lemma_short_error_bounded(message: Seq<char>)
    ensures
        short_error_text(message).len() <= ERROR_TEXT_LIMIT,
{
    reveal_strlit("timeout");
    reveal_strlit("refused");
}

} // verus!

verus! {

/// A shortened message is "timeout", "refused" or the start of the message
/// itself; it is "timeout" whenever the message mentions "timeout" or
/// "timed out" in any ASCII case, and the message unchanged when it is at
/// most 48 characters long and mentions neither a timeout nor a refusal.
pub proof fn lemma_short_error_shape(message: Seq<char>)
    ensures
        short_error_text(message) == "timeout"@ || short_error_text(message) == "refused"@ || (
        short_error_text(message).len() <= message.len() && message.subrange(
            0,
            short_error_text(message).len() as int,
        ) == short_error_text(message)),
        has_run(lower_codes(message), codes("timeout"@)) ==> short_error_text(message)
            == "timeout"@,
        has_run(lower_codes(message), codes("timed out"@)) ==> short_error_text(message)
            == "timeout"@,
        !has_run(lower_codes(message), codes("timeout"@)) && !has_run(
            lower_codes(message),
            codes("timed out"@),
        ) && has_run(lower_codes(message), codes("refused"@)) ==> short_error_text(message)
            == "refused"@,
        message.len() <= ERROR_TEXT_LIMIT && !has_run(lower_codes(message), codes("timeout"@))
            && !has_run(lower_codes(message), codes("timed out"@)) && !has_run(
            lower_codes(message),
            codes("refused"@),
        ) ==> short_error_text(message) == message,
{
    if message.len() <= ERROR_TEXT_LIMIT {
        assert(message.subrange(0, message.len() as int) =~= message);
    } else {
        assert(message.subrange(0, ERROR_TEXT_LIMIT as int) =~= message.take(ERROR_TEXT_LIMIT as int));
    }
}

} // verus!
