//! What the functions that write texts return.

use vstd::prelude::*;

use crate::base;
use crate::base::BatchError;
use crate::requests;
use crate::responses;
use crate::text;

verus! {

/// The number that decimal digits are read as.
pub open spec fn number(digits: Seq<char>) -> int
    decreases digits.len(),
{
    if digits.len() == 0 {
        0
    } else {
        10 * number(digits.drop_last()) + (digits.last() as int - '0' as int)
    }
}

/// Whether `digits` is a number as it is written: digits alone, at least one, and no zero
/// before another digit.
pub open spec fn is_numeral(digits: Seq<char>) -> bool {
    &&& digits.len() > 0
    &&& forall|i: int|
        0 <= i < digits.len() ==> '0' as int <= #[trigger] digits[i] as int <= '9' as int
    &&& digits.len() > 1 ==> digits[0] != '0'
}

/// The text of a number is a numeral that is read as that number.
pub proof fn law_decimal_text(n: usize, written: String)
    requires
        call_ensures(text::decimal_text, (n,), written),
    ensures
        is_numeral(written@),
        number(written@) == n,
{
    lemma_decimal(n as nat);
}

/// What `text::decimal` gives is a numeral, and is read as the number.
pub proof fn lemma_decimal(n: nat)
    ensures
        is_numeral(text::decimal(n)),
        number(text::decimal(n)) == n,
        text::decimal(n)[0] == '0' <==> n == 0,
    decreases n,
{
    reveal_strlit("0123456789");
    if n < 10 {
        reveal_with_fuel(number, 2);
        assert(text::decimal(n).drop_last() =~= seq![]);
    } else {
        lemma_decimal(n / 10);
        assert(text::decimal(n).drop_last() =~= text::decimal(n / 10));
    }
}

/// Different numbers have different texts.
pub proof fn law_decimal_texts_differ(a: usize, b: usize, written_a: String, written_b: String)
    requires
        call_ensures(text::decimal_text, (a,), written_a),
        call_ensures(text::decimal_text, (b,), written_b),
    ensures
        written_a@ == written_b@ <==> a == b,
{
    law_decimal_text(a, written_a);
    law_decimal_text(b, written_b);
}

/// Nothing is joined to nothing.
pub proof fn law_join_nothing(parts: &[String], separator: &str, joined: String)
    requires
        call_ensures(text::join, (parts, separator), joined),
        parts@.len() == 0,
    ensures
        joined@.len() == 0,
{
}

/// A further part stands at the end, behind a separator where it is not the first.
pub proof fn law_join_one_more(
    parts: &[String],
    more: &[String],
    last: String,
    separator: &str,
    joined: String,
    joined_more: String,
)
    requires
        more@ == parts@.push(last),
        call_ensures(text::join, (parts, separator), joined),
        call_ensures(text::join, (more, separator), joined_more),
    ensures
        parts@.len() == 0 ==> joined_more@ == last@,
        parts@.len() > 0 ==> joined_more@ == joined@ + separator@ + last@,
{
    let texts = text::texts(more@);
    assert(texts.drop_last() =~= text::texts(parts@));
    assert(texts.last() == last@);
}

/// A list is its items with a comma and a space between them, in square brackets.
pub proof fn law_list(items: &[String], separator: &str, joined: String, listed: String)
    requires
        separator@ == ", "@,
        call_ensures(text::join, (items, separator), joined),
        call_ensures(text::list, (items,), listed),
    ensures
        listed@ == seq!['['] + joined@ + seq![']'],
{
    reveal_strlit("[");
    reveal_strlit("]");
    assert("["@ =~= seq!['[']);
    assert("]"@ =~= seq![']']);
}

/// Each string is quoted, in its place.
pub proof fn law_quote_all(strings: &[String], items: Vec<String>)
    requires
        call_ensures(text::quote_all, (strings,), items),
    ensures
        items@.len() == strings@.len(),
        forall|i: int|
            0 <= i < items@.len() ==> (#[trigger] items@[i])@ == text::quoted(strings@[i]@),
{
    let texts = text::texts(items@);
    assert(texts.len() == items@.len());
    assert forall|i: int| 0 <= i < items@.len() implies (#[trigger] items@[i])@ == text::quoted(
        strings@[i]@,
    ) by {
        assert(texts[i] == items@[i]@);
    }
}

/// An error is shown by its name and its quoted message.
pub proof fn law_error_shown(error: BatchError, shown: String)
    requires
        call_ensures(BatchError::shown, (&error,), shown),
    ensures
        error matches BatchError::InternalError(message) ==> shown@ == "InternalError("@
            + text::quoted(message@) + ")"@,
{
}

/// An error is shown by its name and the given text of its message.
pub proof fn law_show_error(quoted_message: &str, shown: String)
    requires
        call_ensures(base::show_error, (quoted_message,), shown),
    ensures
        shown@ == "InternalError("@ + quoted_message@ + ")"@,
{
}

/// The message of a failed request or update holds the error and the service.
pub proof fn law_failure_text(error: &str, service_id: &str, message: String)
    requires
        call_ensures(responses::failure_text, (error, service_id), message),
    ensures
        message@ == "encountered error "@ + error@ + " fetching batch statuses for service id "@
            + service_id@,
{
}

/// The message of a poll that failed holds the error.
pub proof fn law_pending_failure_text(error: &str, message: String)
    requires
        call_ensures(requests::pending_failure_text, (error,), message),
    ensures
        message@ == "encountered error "@ + error@ + " fetching pending batches"@,
{
}

/// The message of a mismatch holds the service, what is missing and then what is foreign.
pub proof fn law_mismatch_text(
    service_id: &str,
    only_in_pending: &str,
    only_in_response: &str,
    message: String,
)
    requires
        call_ensures(
            responses::mismatch_text,
            (service_id, only_in_pending, only_in_response),
            message,
        ),
    ensures
        message@
            == "unexpected difference between submission and response during sanity check for service "@
            + service_id@ + ". the following batch ids were submitted but not received back: "@
            + only_in_pending@
            + ". the following batch ids were received back but not submitted: "@
            + only_in_response@ + ". these will not be updated."@,
{
}

/// The message of unknown statuses holds their list.
pub proof fn law_unknown_text(unknown: &str, message: String)
    requires
        call_ensures(responses::unknown_text, (unknown,), message),
    ensures
        message@ == "batches returned unknown status: "@ + unknown@,
{
}

} // verus!
