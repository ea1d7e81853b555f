//! Keeping secrets out of logs and out of what the frontend is shown.
use crate::contracts::{RuntimeError, RuntimeErrorView, RuntimeEvent, RuntimeEventView, ScalarValue, ScalarView};
use crate::contracts;
use crate::json::{JsonMember, JsonValue, JsonView};
use crate::json;
use crate::ordered_map::{Entry, OrderedMap};
use crate::ordered_map;
use crate::text;
use vstd::prelude::*;
use vstd::string::*;

verus! {

broadcast use vstd::string::group_string_axioms;

/// What stands in the place of a secret.
pub open spec fn redaction_mark() -> Seq<char> {
    "[redacted]"@
}

/// A key, read without regard to case, names a secret.
pub open spec fn sensitive_key(key: Seq<char>) -> bool {
    ||| text::contains_text(text::folded(key), "token"@)
    ||| text::contains_text(text::folded(key), "secret"@)
    ||| text::contains_text(text::folded(key), "password"@)
    ||| text::contains_text(text::folded(key), "credential"@)
    ||| text::contains_text(text::folded(key), "api_key"@)
    ||| text::contains_text(text::folded(key), "apikey"@)
    ||| text::contains_text(text::folded(key), "authorization"@)
}

/// A message, read without regard to case, spells out a secret.
pub open spec fn sensitive_message(message: Seq<char>) -> bool {
    ||| text::contains_text(text::folded(message), "authorization"@)
    ||| text::contains_text(text::folded(message), "bearer "@)
    ||| text::contains_text(text::folded(message), "token="@)
    ||| text::contains_text(text::folded(message), "token:"@)
    ||| text::contains_text(text::folded(message), "secret="@)
    ||| text::contains_text(text::folded(message), "secret:"@)
    ||| text::contains_text(text::folded(message), "password="@)
    ||| text::contains_text(text::folded(message), "password:"@)
    ||| text::contains_text(text::folded(message), "api_key="@)
    ||| text::contains_text(text::folded(message), "api_key:"@)
    ||| text::contains_text(text::folded(message), "credential="@)
    ||| text::contains_text(text::folded(message), "credential:"@)
}

/// A message as it may be shown.
pub open spec fn redacted_message(message: Seq<char>) -> Seq<char> {
    if sensitive_message(message) {
        redaction_mark()
    } else {
        message
    }
}

/// Named scalars as they may be shown.
pub open spec fn redacted_scalars(fields: Map<Seq<char>, ScalarView>) -> Map<Seq<char>, ScalarView> {
    Map::new(
        |key: Seq<char>| fields.contains_key(key),
        |key: Seq<char>|
            if sensitive_key(key) {
                ScalarView::String(redaction_mark())
            } else {
                fields[key]
            },
    )
}

/// A JSON value as it may be shown: what stands under a sensitive key gives way to the mark, at
/// every depth.
pub open spec fn redacted_json(value: JsonView) -> JsonView
    decreases value,
{
    match value {
        JsonView::Array(items) => JsonView::Array(
            Seq::new(
                items.len(),
                |i: int| if 0 <= i < items.len() { redacted_json(items[i]) } else { arbitrary() },
            ),
        ),
        JsonView::Object(members) => JsonView::Object(
            Seq::new(
                members.len(),
                |i: int|
                    if 0 <= i < members.len() {
                        (
                            members[i].0,
                            if sensitive_key(members[i].0) {
                                JsonView::String(redaction_mark())
                            } else {
                                redacted_json(members[i].1)
                            },
                        )
                    } else {
                        arbitrary()
                    },
            ),
        ),
        other => other,
    }
}

/// Named JSON values with their texts and rows taken as sequences.
pub open spec fn json_fields(fields: Map<Seq<char>, JsonValue>) -> Map<Seq<char>, JsonView> {
    fields.map_values(|value: JsonValue| value@)
}

/// Named JSON values as they may be shown.
pub open spec fn redacted_fields(fields: Map<Seq<char>, JsonView>) -> Map<Seq<char>, JsonView> {
    Map::new(
        |key: Seq<char>| fields.contains_key(key),
        |key: Seq<char>|
            if sensitive_key(key) {
                JsonView::String(redaction_mark())
            } else {
                redacted_json(fields[key])
            },
    )
}

/// A runtime error as it may be shown, together with its causes.
pub open spec fn redacted_error(error: RuntimeErrorView) -> RuntimeErrorView
    decreases error,
{
    RuntimeErrorView {
        evidence: redacted_scalars(error.evidence),
        cause: match error.cause {
            Some(cause) => Some(Box::new(redacted_error(*cause))),
            None => None,
        },
        ..error
    }
}

/// A runtime event as it may be shown.
pub open spec fn redacted_event(event: RuntimeEventView) -> RuntimeEventView {
    RuntimeEventView {
        attributes: redacted_scalars(event.attributes),
        error: match event.error {
            Some(error) => Some(redacted_error(error)),
            None => None,
        },
        ..event
    }
}

/// Nothing but the mark stands under a sensitive key of a JSON value, at any depth.
pub open spec fn secret_free(value: JsonView) -> bool
    decreases value,
{
    match value {
        JsonView::Array(items) => forall|i: int|
            0 <= i < items.len() ==> secret_free(#[trigger] items[i]),
        JsonView::Object(members) => forall|i: int|
            0 <= i < members.len() ==> if sensitive_key((#[trigger] members[i]).0) {
                members[i].1 == JsonView::String(redaction_mark())
            } else {
                secret_free(members[i].1)
            },
        _ => true,
    }
}

/// Nothing but the mark stands under a sensitive key of named scalars.
pub open spec fn secret_free_scalars(fields: Map<Seq<char>, ScalarView>) -> bool {
    forall|key: Seq<char>| #[trigger]
        fields.contains_key(key) && sensitive_key(key) ==> fields[key] == ScalarView::String(
            redaction_mark(),
        )
}

/// Nothing but the mark stands under a sensitive key in the evidence of an error or of a cause.
pub open spec fn secret_free_error(error: RuntimeErrorView) -> bool
    decreases error,
{
    &&& secret_free_scalars(error.evidence)
    &&& match error.cause {
        Some(cause) => secret_free_error(*cause),
        None => true,
    }
}

/// A redacted JSON value is free of secrets.
pub proof fn law_redacted_json_is_secret_free(value: JsonView)
    ensures
        secret_free(redacted_json(value)),
    decreases value,
{
    match value {
        JsonView::Array(items) => {
            let shown = redacted_json(value)->Array_0;
            assert forall|i: int| 0 <= i < shown.len() implies secret_free(#[trigger] shown[i]) by {
                law_redacted_json_is_secret_free(items[i]);
            }
        },
        JsonView::Object(members) => {
            let shown = redacted_json(value)->Object_0;
            assert forall|i: int| 0 <= i < shown.len() implies if sensitive_key(
                (#[trigger] shown[i]).0,
            ) {
                shown[i].1 == JsonView::String(redaction_mark())
            } else {
                secret_free(shown[i].1)
            } by {
                assert(decreases_to!(members => members[i]));
                if !sensitive_key(members[i].0) {
                    law_redacted_json_is_secret_free(members[i].1);
                }
            }
        },
        _ => {},
    }
}

/// A value that is free of secrets is shown as it is, so that redacting twice is redacting once.
pub proof fn law_secret_free_json_is_kept(value: JsonView)
    requires
        secret_free(value),
    ensures
        redacted_json(value) == value,
    decreases value,
{
    match value {
        JsonView::Array(items) => {
            let shown = redacted_json(value)->Array_0;
            assert forall|i: int| 0 <= i < items.len() implies shown[i] == items[i] by {
                law_secret_free_json_is_kept(items[i]);
            }
            assert(shown =~= items);
        },
        JsonView::Object(members) => {
            let shown = redacted_json(value)->Object_0;
            assert forall|i: int| 0 <= i < members.len() implies shown[i] == members[i] by {
                assert(decreases_to!(members => members[i]));
                if !sensitive_key(members[i].0) {
                    law_secret_free_json_is_kept(members[i].1);
                }
            }
            assert(shown =~= members);
        },
        _ => {},
    }
}

/// A redacted error is free of secrets, and so are its causes.
pub proof fn law_redacted_error_is_secret_free(error: RuntimeErrorView)
    ensures
        secret_free_error(redacted_error(error)),
    decreases error,
{
    match error.cause {
        Some(cause) => {
            law_redacted_error_is_secret_free(*cause);
        },
        None => {},
    }
}

/// An error that is free of secrets is shown as it is.
pub proof fn law_secret_free_error_is_kept(error: RuntimeErrorView)
    requires
        secret_free_error(error),
    ensures
        redacted_error(error) == error,
    decreases error,
{
    assert(redacted_scalars(error.evidence) =~= error.evidence);
    match error.cause {
        Some(cause) => {
            law_secret_free_error_is_kept(*cause);
        },
        None => {},
    }
}

/// A redacted event carries no secret in its attributes or its error, and tells the same story:
/// sequence, kind, name and subject are those of the event.
pub proof fn law_redacted_event_is_secret_free(event: RuntimeEventView)
    ensures
        secret_free_scalars(redacted_event(event).attributes),
        redacted_event(event).error matches Some(error) ==> secret_free_error(error),
        redacted_event(event).sequence == event.sequence,
        redacted_event(event).kind == event.kind,
        redacted_event(event).name == event.name,
        redacted_event(event).subject_id == event.subject_id,
{
    if event.error is Some {
        law_redacted_error_is_secret_free(event.error->0);
    }
}

/// A redacted message spells out no secret.
pub proof fn law_redacted_message_is_harmless(message: Seq<char>)
    ensures
        !sensitive_message(redacted_message(message)),
{
    if sensitive_message(message) {
        reveal_strlit("[redacted]");
        reveal_strlit("authorization");
        reveal_strlit("bearer ");
        reveal_strlit("token=");
        reveal_strlit("token:");
        reveal_strlit("secret=");
        reveal_strlit("secret:");
        reveal_strlit("password=");
        reveal_strlit("password:");
        reveal_strlit("api_key=");
        reveal_strlit("api_key:");
        reveal_strlit("credential=");
        reveal_strlit("credential:");
        let mark = text::folded(redaction_mark());
        text::lemma_missing_char(mark, "authorization"@, 1);
        text::lemma_missing_char(mark, "bearer "@, 0);
        text::lemma_missing_char(mark, "token="@, 1);
        text::lemma_missing_char(mark, "token:"@, 1);
        text::lemma_missing_char(mark, "secret="@, 0);
        text::lemma_missing_char(mark, "secret:"@, 0);
        text::lemma_missing_char(mark, "password="@, 0);
        text::lemma_missing_char(mark, "password:"@, 0);
        text::lemma_missing_char(mark, "api_key="@, 1);
        text::lemma_missing_char(mark, "api_key:"@, 1);
        text::lemma_missing_char(mark, "credential="@, 5);
        text::lemma_missing_char(mark, "credential:"@, 5);
    }
}

/// Whether a key names a secret.
pub fn is_sensitive_key(key: &str) -> (sensitive: bool)
    ensures
        sensitive == sensitive_key(key@),
{
    let key = text::folded_chars(key);
    text::chars_contain(&key, "token") || text::chars_contain(&key, "secret")
        || text::chars_contain(&key, "password") || text::chars_contain(&key, "credential")
        || text::chars_contain(&key, "api_key") || text::chars_contain(&key, "apikey")
        || text::chars_contain(&key, "authorization")
}

/// Replaces a message that spells out a secret.
pub fn redact_message(message: String) -> (shown: String)
    ensures
        shown@ == redacted_message(message@),
{
    let lower = text::folded_chars(message.as_str());
    let sensitive = text::chars_contain(&lower, "authorization") || text::chars_contain(
        &lower,
        "bearer ",
    ) || text::chars_contain(&lower, "token=") || text::chars_contain(&lower, "token:")
        || text::chars_contain(&lower, "secret=") || text::chars_contain(&lower, "secret:")
        || text::chars_contain(&lower, "password=") || text::chars_contain(&lower, "password:")
        || text::chars_contain(&lower, "api_key=") || text::chars_contain(&lower, "api_key:")
        || text::chars_contain(&lower, "credential=") || text::chars_contain(&lower, "credential:");
    if sensitive {
        "[redacted]".to_owned()
    } else {
        message
    }
}

/// Replaces the scalars under sensitive keys.
pub fn redact_scalar_fields(fields: OrderedMap<ScalarValue>) -> (shown: OrderedMap<ScalarValue>)
    ensures
        contracts::scalars(shown@) == redacted_scalars(contracts::scalars(fields@)),
{
    let ghost before = fields@;
    let entries = fields.into_entries();
    let ghost keys = ordered_map::entry_keys(entries@);
    let ghost rows = entries@;
    let mut out: Vec<Entry<ScalarValue>> = Vec::new();
    for entry in it: entries
        invariant
            it.seq() == rows,
            out.len() == it.index(),
            forall|j: int|
                0 <= j < out.len() ==> (#[trigger] out@[j]).key == rows[j].key && out@[j].value@ == (
                if sensitive_key(rows[j].key@) {
                    ScalarView::String(redaction_mark())
                } else {
                    rows[j].value@
                }),
    {
        if is_sensitive_key(entry.key.as_str()) {
            out.push(
                Entry { key: entry.key, value: ScalarValue::String("[redacted]".to_owned()) },
            );
        } else {
            out.push(entry);
        }
    }
    proof {
        assert(ordered_map::entry_keys(out@) =~= keys);
        ordered_map::lemma_same_keys(rows, out@);
        let shown = contracts::scalars(ordered_map::entries_map(out@));
        assert forall|k: Seq<char>| #[trigger] shown.contains_key(k) implies shown[k]
            == redacted_scalars(contracts::scalars(before))[k] by {
            let at = ordered_map::index_of_key(out@, k);
            ordered_map::lemma_entry_at(out@, at);
            assert(rows[at].key@ == k);
            ordered_map::lemma_entry_at(rows, at);
        }
        assert(shown =~= redacted_scalars(contracts::scalars(before)));
    }
    OrderedMap::from_entries(out)
}

/// Replaces what stands under sensitive keys of a JSON value, at every depth.
pub fn redact_json_value(value: JsonValue) -> (shown: JsonValue)
    ensures
        shown@ == redacted_json(value@),
    decreases value,
{
    match value {
        JsonValue::Array(items) => {
            let ghost before = items@;
            let mut out: Vec<JsonValue> = Vec::new();
            for item in it: items
                invariant
                    it.seq() == before,
                    before == items@,
                    out.len() == it.index(),
                    decreases_to!(value => items),
                    forall|j: int|
                        0 <= j < out.len() ==> (#[trigger] out@[j])@ == redacted_json(before[j]@),
            {
                assert(decreases_to!(items => items@));
                assert(item == items@[it.index()]);
                out.push(redact_json_value(item));
            }
            let shown = JsonValue::Array(out);
            assert(shown@->Array_0 =~= redacted_json(value@)->Array_0);
            shown
        },
        JsonValue::Object(members) => {
            let ghost before = members@;
            let mut out: Vec<JsonMember> = Vec::new();
            for member in it: members
                invariant
                    it.seq() == before,
                    before == members@,
                    out.len() == it.index(),
                    decreases_to!(value => members),
                    forall|j: int|
                        0 <= j < out.len() ==> (#[trigger] out@[j]).key@ == before[j].key@
                            && out@[j].value@ == (if sensitive_key(before[j].key@) {
                            JsonView::String(redaction_mark())
                        } else {
                            redacted_json(before[j].value@)
                        }),
            {
                assert(decreases_to!(members => members@));
                assert(member == members@[it.index()]);
                if is_sensitive_key(member.key.as_str()) {
                    out.push(
                        JsonMember {
                            key: member.key,
                            value: JsonValue::String("[redacted]".to_owned()),
                        },
                    );
                } else {
                    out.push(
                        JsonMember { key: member.key, value: redact_json_value(member.value) },
                    );
                }
            }
            let shown = JsonValue::Object(out);
            assert(shown@->Object_0 =~= redacted_json(value@)->Object_0);
            shown
        },
        other => other,
    }
}

/// Replaces what stands under sensitive keys, at every depth.
pub fn redact_json_fields(fields: OrderedMap<JsonValue>) -> (shown: OrderedMap<JsonValue>)
    ensures
        json_fields(shown@) == redacted_fields(json_fields(fields@)),
{
    let ghost before = fields@;
    let entries = fields.into_entries();
    let ghost keys = ordered_map::entry_keys(entries@);
    let ghost rows = entries@;
    let mut out: Vec<Entry<JsonValue>> = Vec::new();
    for entry in it: entries
        invariant
            it.seq() == rows,
            out.len() == it.index(),
            forall|j: int|
                0 <= j < out.len() ==> (#[trigger] out@[j]).key == rows[j].key && out@[j].value@ == (
                if sensitive_key(rows[j].key@) {
                    JsonView::String(redaction_mark())
                } else {
                    redacted_json(rows[j].value@)
                }),
    {
        if is_sensitive_key(entry.key.as_str()) {
            out.push(Entry { key: entry.key, value: JsonValue::String("[redacted]".to_owned()) });
        } else {
            out.push(Entry { key: entry.key, value: redact_json_value(entry.value) });
        }
    }
    proof {
        assert(ordered_map::entry_keys(out@) =~= keys);
        ordered_map::lemma_same_keys(rows, out@);
        let shown = json_fields(ordered_map::entries_map(out@));
        assert forall|k: Seq<char>| #[trigger] shown.contains_key(k) implies shown[k]
            == redacted_fields(json_fields(before))[k] by {
            let at = ordered_map::index_of_key(out@, k);
            ordered_map::lemma_entry_at(out@, at);
            assert(rows[at].key@ == k);
            ordered_map::lemma_entry_at(rows, at);
        }
        assert(shown =~= redacted_fields(json_fields(before)));
    }
    OrderedMap::from_entries(out)
}

/// Replaces the evidence under sensitive keys of an error and of its causes.
pub fn redact_runtime_error(error: RuntimeError) -> (shown: RuntimeError)
    ensures
        shown@ == redacted_error(error@),
    decreases error,
{
    let cause = match error.cause {
        Some(cause) => Some(Box::new(redact_runtime_error(*cause))),
        None => None,
    };
    RuntimeError {
        code: error.code,
        source: error.source,
        route: error.route,
        lost_capability: error.lost_capability,
        recovery: error.recovery,
        cause,
        evidence: redact_scalar_fields(error.evidence),
    }
}

/// Replaces the attributes and the evidence under sensitive keys of an event.
pub fn redact_runtime_event(event: RuntimeEvent) -> (shown: RuntimeEvent)
    ensures
        shown@ == redacted_event(event@),
{
    RuntimeEvent {
        sequence: event.sequence,
        kind: event.kind,
        name: event.name,
        subject_id: event.subject_id,
        attributes: redact_scalar_fields(event.attributes),
        error: match event.error {
            Some(error) => Some(redact_runtime_error(error)),
            None => None,
        },
    }
}

/// What makes a message a secret, in lower case.
pub open spec fn telling_fragments() -> Seq<Seq<char>> {
    seq![
        "authorization"@,
        "bearer "@,
        "token="@,
        "token:"@,
        "secret="@,
        "secret:"@,
        "password="@,
        "password:"@,
        "api_key="@,
        "api_key:"@,
        "credential="@,
        "credential:"@,
    ]
}

/// What makes a key name a secret, in lower case.
pub open spec fn telling_words() -> Seq<Seq<char>> {
    seq![
        "token"@,
        "secret"@,
        "password"@,
        "credential"@,
        "api_key"@,
        "apikey"@,
        "authorization"@,
    ]
}

proof fn lemma_fragments_are_lower_case(n: int)
    requires
        0 <= n < telling_fragments().len(),
    ensures
        text::lower_case(telling_fragments()[n]),
{
    reveal_strlit("authorization");
    reveal_strlit("bearer ");
    reveal_strlit("token=");
    reveal_strlit("token:");
    reveal_strlit("secret=");
    reveal_strlit("secret:");
    reveal_strlit("password=");
    reveal_strlit("password:");
    reveal_strlit("api_key=");
    reveal_strlit("api_key:");
    reveal_strlit("credential=");
    reveal_strlit("credential:");
}

proof fn lemma_words_are_lower_case(n: int)
    requires
        0 <= n < telling_words().len(),
    ensures
        text::lower_case(telling_words()[n]),
{
    reveal_strlit("token");
    reveal_strlit("secret");
    reveal_strlit("password");
    reveal_strlit("credential");
    reveal_strlit("api_key");
    reveal_strlit("apikey");
    reveal_strlit("authorization");
}

/// A message that spells out a secret is hidden, wherever and in whatever case it does so: one of
/// the fragments, with anything before and behind it, is shown as the mark and as nothing else.
pub proof fn law_message_with_a_secret_is_hidden(
    before: Seq<char>,
    part: Seq<char>,
    after: Seq<char>,
    n: int,
)
    requires
        0 <= n < telling_fragments().len(),
        text::spells(part, telling_fragments()[n]),
    ensures
        redacted_message(before + part + after) == "[redacted]"@,
{
    lemma_fragments_are_lower_case(n);
    text::law_spelled_word_is_found(before, part, after, telling_fragments()[n]);
}

/// Any other message is shown as it is: where something else is shown, a fragment is spelled out.
pub proof fn law_other_messages_are_shown(message: Seq<char>)
    ensures
        redacted_message(message) == message || redacted_message(message) == "[redacted]"@,
        redacted_message(message) != message ==> exists|
            n: int,
            before: Seq<char>,
            part: Seq<char>,
            after: Seq<char>,
        |
            0 <= n < telling_fragments().len() && text::spells(part, #[trigger] telling_fragments()[n])
                && message == #[trigger] (before + part + after),
{
    if redacted_message(message) != message {
        let all = telling_fragments();
        let n = choose|n: int|
            0 <= n < all.len() && text::contains_text(text::folded(message), #[trigger] all[n]);
        assert(0 <= n < all.len() && text::contains_text(text::folded(message), all[n])) by {
            assert(all[0] == "authorization"@ && all[1] == "bearer "@ && all[2] == "token="@
                && all[3] == "token:"@ && all[4] == "secret="@ && all[5] == "secret:"@ && all[6]
                == "password="@ && all[7] == "password:"@ && all[8] == "api_key="@ && all[9]
                == "api_key:"@ && all[10] == "credential="@ && all[11] == "credential:"@);
        }
        lemma_fragments_are_lower_case(n);
        text::law_found_word_is_spelled_out(message, all[n]);
    }
}

/// A key that holds one of the telling words, wherever and in whatever case, names a secret.
pub proof fn law_key_with_a_telling_word_is_sensitive(
    before: Seq<char>,
    part: Seq<char>,
    after: Seq<char>,
    n: int,
)
    requires
        0 <= n < telling_words().len(),
        text::spells(part, telling_words()[n]),
    ensures
        sensitive_key(before + part + after),
{
    lemma_words_are_lower_case(n);
    text::law_spelled_word_is_found(before, part, after, telling_words()[n]);
}

/// No other key names a secret.
pub proof fn law_other_keys_are_not_sensitive(key: Seq<char>)
    requires
        sensitive_key(key),
    ensures
        exists|n: int, before: Seq<char>, part: Seq<char>, after: Seq<char>|
            0 <= n < telling_words().len() && text::spells(part, #[trigger] telling_words()[n]) && key
                == #[trigger] (before + part + after),
{
    let all = telling_words();
    let n = choose|n: int|
        0 <= n < all.len() && text::contains_text(text::folded(key), #[trigger] all[n]);
    assert(0 <= n < all.len() && text::contains_text(text::folded(key), all[n])) by {
        assert(all[0] == "token"@ && all[1] == "secret"@ && all[2] == "password"@ && all[3]
            == "credential"@ && all[4] == "api_key"@ && all[5] == "apikey"@ && all[6]
            == "authorization"@);
    }
    lemma_words_are_lower_case(n);
    text::law_found_word_is_spelled_out(key, all[n]);
}

/// `shown` is `value` with nothing changed but what stands under keys that name a secret, which
/// gave way to the mark, at every depth.
pub open spec fn differs_in_secrets_only(value: JsonView, shown: JsonView) -> bool
    decreases value,
{
    match value {
        JsonView::Array(items) => shown matches JsonView::Array(others) && others.len()
            == items.len() && forall|i: int|
            0 <= i < items.len() ==> differs_in_secrets_only(#[trigger] items[i], others[i]),
        JsonView::Object(members) => shown matches JsonView::Object(others) && others.len()
            == members.len() && forall|i: int|
            0 <= i < members.len() ==> {
                let member = #[trigger] members[i];
                others[i].0 == member.0 && if sensitive_key(member.0) {
                    others[i].1 == JsonView::String("[redacted]"@)
                } else {
                    differs_in_secrets_only(member.1, others[i].1)
                }
            },
        _ => shown == value,
    }
}

/// Redacting a JSON value hides what stands under keys that name a secret, at every depth, and
/// leaves everything else where and what it was.
pub proof fn law_redaction_hides_secrets_only(value: JsonView)
    ensures
        differs_in_secrets_only(value, redacted_json(value)),
    decreases value,
{
    match value {
        JsonView::Array(items) => {
            let shown = redacted_json(value)->Array_0;
            assert forall|i: int| 0 <= i < items.len() implies differs_in_secrets_only(
                #[trigger] items[i],
                shown[i],
            ) by {
                law_redaction_hides_secrets_only(items[i]);
            }
        },
        JsonView::Object(members) => {
            let shown = redacted_json(value)->Object_0;
            assert forall|i: int| 0 <= i < members.len() implies {
                let member = #[trigger] members[i];
                shown[i].0 == member.0 && if sensitive_key(member.0) {
                    shown[i].1 == JsonView::String("[redacted]"@)
                } else {
                    differs_in_secrets_only(member.1, shown[i].1)
                }
            } by {
                assert(decreases_to!(members => members[i]));
                if !sensitive_key(members[i].0) {
                    law_redaction_hides_secrets_only(members[i].1);
                }
            }
        },
        _ => {},
    }
}

/// Of named JSON values none is lost and none is added: one under a key that names a secret is
/// shown as the mark, and any other differs in its secrets only.
pub proof fn law_redacted_fields_hide_secrets_only(fields: Map<Seq<char>, JsonView>, key: Seq<char>)
    ensures
        redacted_fields(fields).contains_key(key) <==> fields.contains_key(key),
        fields.contains_key(key) && sensitive_key(key) ==> redacted_fields(fields)[key]
            == JsonView::String("[redacted]"@),
        fields.contains_key(key) && !sensitive_key(key) ==> differs_in_secrets_only(
            fields[key],
            redacted_fields(fields)[key],
        ),
{
    if fields.contains_key(key) && !sensitive_key(key) {
        law_redaction_hides_secrets_only(fields[key]);
    }
}

/// Of named scalars none is lost and none is added: one under a key that names a secret is shown as
/// the mark, and any other as it is.
pub proof fn law_redacted_scalars_hide_secrets_only(
    fields: Map<Seq<char>, ScalarView>,
    key: Seq<char>,
)
    ensures
        redacted_scalars(fields).contains_key(key) <==> fields.contains_key(key),
        fields.contains_key(key) && sensitive_key(key) ==> redacted_scalars(fields)[key]
            == ScalarView::String("[redacted]"@),
        fields.contains_key(key) && !sensitive_key(key) ==> redacted_scalars(fields)[key]
            == fields[key],
{
}

/// A redacted error keeps its code, source, route and all else, and its cause is redacted as it is;
/// only its evidence is looked into.
pub proof fn law_redacted_error_tells_the_same(error: RuntimeErrorView)
    ensures
        ({
            let shown = redacted_error(error);
            &&& shown.code == error.code
            &&& shown.source == error.source
            &&& shown.route == error.route
            &&& shown.lost_capability == error.lost_capability
            &&& shown.recovery == error.recovery
            &&& shown.evidence == redacted_scalars(error.evidence)
            &&& shown.cause is Some <==> error.cause is Some
            &&& error.cause is Some ==> *(shown.cause->0) == redacted_error(*(error.cause->0))
        }),
{
}

/// A redacted event has its attributes and its error redacted, and an error exactly where it had
/// one.
pub proof fn law_redacted_event_is_redacted_throughout(event: RuntimeEventView)
    ensures
        redacted_event(event).attributes == redacted_scalars(event.attributes),
        redacted_event(event).error is Some <==> event.error is Some,
        event.error is Some ==> redacted_event(event).error->0 == redacted_error(event.error->0),
{
}

} // verus!
