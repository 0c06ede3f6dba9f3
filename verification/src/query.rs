use crate::error::{failure, APIError, ErrorKind};
use crate::ids::{format_id, id_text};
use crate::messages::TIME_UNWRITABLE;
use crate::models::text_of;
use crate::text::push_char;
use crate::time::Timestamp;
use vstd::prelude::*;
use vstd::string::StringExecFns;
use vstd::utf8::encode_utf8;

verus! {

/// The upper-case hexadecimal digit for a value below sixteen.
pub open spec fn upper_hex(d: nat) -> char {
    if d < 10 {
        ((48 + d) as u8) as char
    } else {
        ((55 + d) as u8) as char
    }
}

/// A byte written as a percent sign and its two upper-case hexadecimal digits.
pub open spec fn percent_form(byte: u8) -> Seq<char> {
    seq!['%', upper_hex((byte / 16) as nat), upper_hex((byte % 16) as nat)]
}

/// Is `byte` an ASCII letter or digit?
pub open spec fn is_alphanumeric(byte: u8) -> bool {
    (0x30 <= byte <= 0x39) || (0x41 <= byte <= 0x5a) || (0x61 <= byte <= 0x7a)
}

/// Must `byte` be written in percent form? Within a value that a caller supplied,
/// every byte but the ASCII letters and digits; within the query as a whole, the
/// bytes that are not ASCII, the control characters, and space, double quote,
/// angle brackets, percent, hash and ampersand.
pub open spec fn must_escape(byte: u8, in_value: bool) -> bool {
    if in_value {
        !is_alphanumeric(byte)
    } else {
        byte >= 0x80 || byte < 0x20 || byte == 0x7f || byte == 0x20 || byte == 0x22 || byte == 0x3c
            || byte == 0x3e || byte == 0x25 || byte == 0x23 || byte == 0x26
    }
}

/// Bytes in percent-encoding: each byte that must be escaped in its percent form,
/// every other byte as the ASCII character that it is.
pub open spec fn percent_encoded(bytes: Seq<u8>, in_value: bool) -> Seq<char>
    decreases bytes.len(),
{
    if bytes.len() == 0 {
        Seq::empty()
    } else if must_escape(bytes.last(), in_value) {
        percent_encoded(bytes.drop_last(), in_value) + percent_form(bytes.last())
    } else {
        percent_encoded(bytes.drop_last(), in_value).push(bytes.last() as char)
    }
}

/// `percent_encoding::percent_encode_byte`: the percent sign and the two
/// upper-case hexadecimal digits of the byte.
#[verifier::external_body]
fn percent_form_of(byte: u8) -> (form: &'static str)
    ensures
        form@ == percent_form(byte),
{
    percent_encoding::percent_encode_byte(byte)
}

fn escapes(byte: u8, in_value: bool) -> (escape: bool)
    ensures
        escape == must_escape(byte, in_value),
{
    if in_value {
        !((0x30 <= byte && byte <= 0x39) || (0x41 <= byte && byte <= 0x5a) || (0x61 <= byte && byte
            <= 0x7a))
    } else {
        byte >= 0x80 || byte < 0x20 || byte == 0x7f || byte == 0x20 || byte == 0x22 || byte == 0x3c
            || byte == 0x3e || byte == 0x25 || byte == 0x23 || byte == 0x26
    }
}

fn percent_encode(text: &str, in_value: bool) -> (encoded: String)
    ensures
        encoded@ == percent_encoded(encode_utf8(text@), in_value),
{
    let bytes = text.as_bytes();
    let mut encoded = String::new();
    let mut i: usize = 0;
    assert(bytes@.take(0) =~= Seq::<u8>::empty());
    while i < bytes.len()
        invariant
            i <= bytes@.len(),
            bytes@ == encode_utf8(text@),
            encoded@ == percent_encoded(bytes@.take(i as int), in_value),
        decreases bytes@.len() - i,
    {
        let byte = bytes[i];
        proof {
            let next = bytes@.take(i + 1);
            assert(next.drop_last() =~= bytes@.take(i as int));
            assert(next.last() == byte);
        }
        if escapes(byte, in_value) {
            encoded.append(percent_form_of(byte));
        } else {
            push_char(&mut encoded, byte as char);
        }
        i += 1;
    }
    assert(bytes@.take(bytes@.len() as int) =~= bytes@);
    encoded
}

/// Makes a query fit to stand in a request: percent-encodes the bytes that may
/// not stand there.
pub fn escape_query(query: String) -> (safe: String)
    ensures
        safe@ == percent_encoded(encode_utf8(query@), false),
{
    percent_encode(query.as_str(), false)
}

/// Makes a value that a caller supplied fit to stand in a filter: percent-encodes
/// every byte but the ASCII letters and digits.
pub fn escape_value(value: &str) -> (safe: String)
    ensures
        safe@ == percent_encoded(encode_utf8(value@), true),
{
    percent_encode(value, true)
}

/// The clause to send with a listing: the query made fit to stand in a request, or
/// none where that is empty.
pub fn query_clause(query: String) -> (clause: Option<String>)
    ensures
        percent_encoded(encode_utf8(query@), false).len() == 0 ==> clause is None,
        percent_encoded(encode_utf8(query@), false).len() > 0 ==> text_of(clause) == Some(
            percent_encoded(encode_utf8(query@), false),
        ),
{
    let safe = escape_query(query);
    if safe.as_str().is_empty() {
        None
    } else {
        Some(safe)
    }
}

/// Percent-encoding goes byte by byte: what two runs of bytes encode to, one
/// behind the other, is what they encode to together.
pub proof fn lemma_percent_encoded_concat(first: Seq<u8>, second: Seq<u8>, in_value: bool)
    ensures
        percent_encoded(first + second, in_value) == percent_encoded(first, in_value)
            + percent_encoded(second, in_value),
    decreases second.len(),
{
    if second.len() == 0 {
        assert(first + second =~= first);
        assert(percent_encoded(first, in_value) + percent_encoded(second, in_value)
            =~= percent_encoded(first, in_value));
    } else {
        let whole = first + second;
        assert(whole.drop_last() =~= first + second.drop_last());
        assert(whole.last() == second.last());
        lemma_percent_encoded_concat(first, second.drop_last(), in_value);
        if must_escape(second.last(), in_value) {
            assert(percent_encoded(whole, in_value) =~= percent_encoded(first, in_value) + (
            percent_encoded(second.drop_last(), in_value) + percent_form(second.last())));
        } else {
            assert(percent_encoded(whole, in_value) =~= percent_encoded(first, in_value)
                + percent_encoded(second.drop_last(), in_value).push(second.last() as char));
        }
    }
}

/// Every character of an escaped value is an ASCII letter, a digit or a percent
/// sign: none of them is a quote, a space or any other character by which a
/// filter is put together, whatever the caller supplied.
pub proof fn lemma_escaped_value_is_inert(bytes: Seq<u8>, i: int)
    requires
        0 <= i < percent_encoded(bytes, true).len(),
    ensures
        ({
            let c = percent_encoded(bytes, true)[i];
            c == '%' || ('0' <= c <= '9') || ('A' <= c <= 'Z') || ('a' <= c <= 'z')
        }),
    decreases bytes.len(),
{
    if bytes.len() > 0 {
        let before = percent_encoded(bytes.drop_last(), true);
        if i < before.len() {
            lemma_escaped_value_is_inert(bytes.drop_last(), i);
        }
    }
}

/// Every character of an escaped query is a printable ASCII character, and none
/// of them is a space, a double quote, an angle bracket, a hash or an ampersand.
pub proof fn lemma_escaped_query_is_safe(bytes: Seq<u8>, i: int)
    requires
        0 <= i < percent_encoded(bytes, false).len(),
    ensures
        ({
            let c = percent_encoded(bytes, false)[i];
            &&& ' ' < c <= '~'
            &&& c != '"' && c != '<' && c != '>' && c != '#' && c != '&'
        }),
    decreases bytes.len(),
{
    if bytes.len() > 0 {
        let before = percent_encoded(bytes.drop_last(), false);
        if i < before.len() {
            lemma_escaped_query_is_safe(bytes.drop_last(), i);
        }
    }
}

/// The filter that selects one partition.
pub open spec fn partition_filter(partition_key: u128) -> Seq<char> {
    "$filter=PartitionKey eq '"@ + id_text(partition_key) + "'"@
}

/// The filter that selects the reports of one partition, narrowed to a metric
/// and to the time after a bound where these are given.
pub open spec fn report_filter(
    partition_key: u128,
    metric: Option<Seq<char>>,
    after: Option<Seq<char>>,
) -> Seq<char> {
    partition_filter(partition_key) + (match metric {
        Some(name) => " and Metric eq "@ + percent_encoded(encode_utf8(name), true),
        None => Seq::empty(),
    }) + (match after {
        Some(bound) => " and Timestamp gt "@ + bound,
        None => Seq::empty(),
    })
}

/// The query for all rows of one partition.
pub fn build_partition_query(partition_key: u128) -> (query: String)
    ensures
        query@ == partition_filter(partition_key),
{
    let mut query = "$filter=PartitionKey eq '".to_owned();
    query.append(format_id(partition_key).as_str());
    query.append("'");
    query
}

/// The query for the reports of one partition, narrowed to `metric` and to the
/// time after `after` where these are given. The metric comes from the caller and
/// is escaped before it is put in. A bound that lies outside the calendar cannot
/// be written and is a bad request.
pub fn build_report_filter_query(
    partition_key: u128,
    metric: Option<String>,
    after: Option<Timestamp>,
) -> (query: Result<String, APIError>)
    ensures
        match after {
            Some(bound) => match bound.text() {
                Some(written) => query is Ok && query->Ok_0@ == report_filter(
                    partition_key,
                    text_of(metric),
                    Some(written),
                ),
                None => query is Err && failure(
                    query->Err_0,
                    ErrorKind::BadRequest,
                    TIME_UNWRITABLE@,
                ),
            },
            None => query is Ok && query->Ok_0@ == report_filter(
                partition_key,
                text_of(metric),
                None,
            ),
        },
{
    let mut query = build_partition_query(partition_key);
    match metric {
        Some(name) => {
            query.append(" and Metric eq ");
            query.append(escape_value(name.as_str()).as_str());
        },
        None => {
            assert(query@ + Seq::<char>::empty() =~= query@);
        },
    }
    match after {
        Some(bound) => match bound.to_rfc3339() {
            Some(written) => {
                query.append(" and Timestamp gt ");
                query.append(written.as_str());
                assert(query@ =~= report_filter(partition_key, text_of(metric), Some(written@)));
                Ok(query)
            },
            None => Err(APIError::bad_request(TIME_UNWRITABLE)),
        },
        None => {
            assert(query@ =~= report_filter(partition_key, text_of(metric), None));
            Ok(query)
        },
    }
}

} // verus!
