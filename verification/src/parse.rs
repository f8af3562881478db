use vstd::prelude::*;
use vstd::string::StrSliceExecFns;
use vstd::string::StringExecFns;

use crate::chars::char_is_whitespace;
use crate::chars::is_whitespace_char;
use crate::chars::push_char;
use crate::errors::InvoiceError;
use crate::json::json_check;
use crate::json::json_field_present;
use crate::json::json_get_num;
use crate::json::json_get_str;
use crate::json::json_has_field;
use crate::json::json_is_object;
use crate::json::json_num_field;
use crate::json::json_object;
use crate::json::json_str_field;
use crate::json::json_valid;
use crate::record::InvoiceInfo;

verus! {

/// The text with every occurrence of `pat` removed, scanning left to
/// right over non-overlapping occurrences.
pub open spec fn strip_all(s: Seq<char>, pat: Seq<char>) -> Seq<char>
    decreases s.len(),
{
    if pat.len() == 0 || s.len() < pat.len() {
        s
    } else if s.take(pat.len() as int) == pat {
        strip_all(s.skip(pat.len() as int), pat)
    } else {
        seq![s[0]] + strip_all(s.skip(1), pat)
    }
}

/// The text with leading white space removed.
pub open spec fn trim_start_spec(s: Seq<char>) -> Seq<char>
    decreases s.len(),
{
    if s.len() > 0 && is_whitespace_char(s[0]) {
        trim_start_spec(s.drop_first())
    } else {
        s
    }
}

/// The text with trailing white space removed.
pub open spec fn trim_end_spec(s: Seq<char>) -> Seq<char>
    decreases s.len(),
{
    if s.len() > 0 && is_whitespace_char(s.last()) {
        trim_end_spec(s.drop_last())
    } else {
        s
    }
}

/// The text with leading and trailing white space removed.
pub open spec fn trim_spec(s: Seq<char>) -> Seq<char> {
    trim_end_spec(trim_start_spec(s))
}

/// The cleaned answer: the `` ```json `` and `` ``` `` code-fence markers
/// removed, then the remainder trimmed.
pub open spec fn cleaned_of(s: Seq<char>) -> Seq<char> {
    trim_spec(strip_all(strip_all(s, "```json"@), "```"@))
}

/// Whether `pat` stands in `s` at position `i`.
fn matches_at(s: &str, pat: &str, i: usize) -> (r: bool)
    requires
        i + pat@.len() <= s@.len(),
    ensures
        r == (s@.subrange(i as int, i + pat@.len()) == pat@),
{
    let n = s.unicode_len();
    let m = pat.unicode_len();
    let mut j: usize = 0;
    while j < m
        invariant
            n == s@.len(),
            m == pat@.len(),
            i + m <= n,
            j <= m,
            forall|k: int| 0 <= k < j ==> s@[i + k] == pat@[k],
        decreases m - j,
    {
        if s.get_char(i + j) != pat.get_char(j) {
            proof {
                assert(s@.subrange(i as int, i + m) != pat@) by {
                    if s@.subrange(i as int, i + m) == pat@ {
                        assert(s@.subrange(i as int, i + m)[j as int] == s@[i + j]);
                    }
                }
            }
            return false;
        }
        j = j + 1;
    }
    proof {
        assert(s@.subrange(i as int, i + m) =~= pat@);
    }
    true
}

/// Removes every occurrence of `pat` from `s`, scanning left to right, as
/// [`strip_all`] says.
pub fn strip_occurrences(s: &str, pat: &str) -> (r: String)
    requires
        pat@.len() > 0,
    ensures
        r@ == strip_all(s@, pat@),
{
    let n = s.unicode_len();
    let m = pat.unicode_len();
    let mut out = String::new();
    let mut i: usize = 0;
    proof {
        assert(s@.skip(0) =~= s@);
    }
    while i < n
        invariant
            n == s@.len(),
            m == pat@.len(),
            m > 0,
            i <= n,
            strip_all(s@, pat@) == out@ + strip_all(s@.skip(i as int), pat@),
        decreases n - i,
    {
        let ghost rest = s@.skip(i as int);
        if n - i >= m && matches_at(s, pat, i) {
            proof {
                assert(rest.take(m as int) =~= s@.subrange(i as int, i + m));
                assert(strip_all(rest, pat@) == strip_all(rest.skip(m as int), pat@));
                assert(rest.skip(m as int) =~= s@.skip(i + m));
            }
            i = i + m;
        } else {
            proof {
                if rest.len() >= m {
                    assert(rest.take(m as int) =~= s@.subrange(i as int, i + m));
                    assert(rest.take(m as int) != pat@);
                    assert(strip_all(rest, pat@) == seq![rest[0]] + strip_all(
                        rest.skip(1),
                        pat@,
                    ));
                } else {
                    assert(strip_all(rest, pat@) == rest);
                    assert(strip_all(rest.skip(1), pat@) == rest.skip(1));
                    assert(rest =~= seq![rest[0]] + rest.skip(1));
                }
                assert(rest[0] == s@[i as int]);
                assert(rest.skip(1) =~= s@.skip(i + 1));
                assert(out@ + strip_all(rest, pat@) =~= (out@ + seq![s@[i as int]]) + strip_all(
                    s@.skip(i + 1),
                    pat@,
                ));
            }
            let c = s.get_char(i);
            push_char(&mut out, c);
            i = i + 1;
        }
    }
    proof {
        assert(s@.skip(n as int) =~= Seq::<char>::empty());
        assert(out@ + Seq::<char>::empty() =~= out@);
    }
    out
}

/// Removes leading and trailing white space, as [`trim_spec`] says.
pub fn trim_text(s: &str) -> (r: String)
    ensures
        r@ == trim_spec(s@),
{
    let n = s.unicode_len();
    let mut lo: usize = 0;
    proof {
        assert(s@.skip(0) =~= s@);
    }
    while lo < n && char_is_whitespace(s.get_char(lo))
        invariant
            n == s@.len(),
            lo <= n,
            trim_start_spec(s@) == trim_start_spec(s@.skip(lo as int)),
        decreases n - lo,
    {
        proof {
            assert(s@.skip(lo as int)[0] == s@[lo as int]);
            assert(s@.skip(lo as int).drop_first() =~= s@.skip(lo + 1));
        }
        lo = lo + 1;
    }
    proof {
        if lo < n {
            assert(s@.skip(lo as int)[0] == s@[lo as int]);
        }
        assert(trim_start_spec(s@) == s@.skip(lo as int));
        assert(s@.skip(lo as int) =~= s@.subrange(lo as int, n as int));
    }
    let mut hi: usize = n;
    while hi > lo && char_is_whitespace(s.get_char(hi - 1))
        invariant
            n == s@.len(),
            lo <= hi <= n,
            trim_start_spec(s@) == s@.subrange(lo as int, n as int),
            trim_end_spec(s@.subrange(lo as int, n as int)) == trim_end_spec(
                s@.subrange(lo as int, hi as int),
            ),
        decreases hi,
    {
        proof {
            let cur = s@.subrange(lo as int, hi as int);
            assert(cur.last() == s@[hi - 1]);
            assert(cur.drop_last() =~= s@.subrange(lo as int, hi - 1));
        }
        hi = hi - 1;
    }
    proof {
        let cur = s@.subrange(lo as int, hi as int);
        if hi > lo {
            assert(cur.last() == s@[hi - 1]);
        }
        assert(trim_end_spec(cur) == cur);
        assert(trim_spec(s@) == s@.subrange(lo as int, hi as int));
    }
    let r = s.substring_char(lo, hi);
    proof {
        assert(r@ =~= s@.subrange(lo as int, hi as int));
    }
    String::from_str(r)
}

/// A string field of the schema is fine when absent, and must hold a
/// string when present.
pub open spec fn str_field_ok(s: Seq<char>, key: Seq<char>) -> bool {
    json_has_field(s, key) ==> json_str_field(s, key) is Some
}

/// The value a string field decodes to: its string when present, the
/// empty string when absent.
pub open spec fn str_field_value(s: Seq<char>, key: Seq<char>) -> Seq<char> {
    if json_str_field(s, key) is Some {
        json_str_field(s, key).unwrap()
    } else {
        Seq::empty()
    }
}

/// The amount field is fine when absent, and must hold a number when
/// present.
pub open spec fn num_field_ok(s: Seq<char>, key: Seq<char>) -> bool {
    json_has_field(s, key) ==> json_num_field(s, key) is Some
}

/// The value the amount field decodes to: the number's decimal text when
/// present, `0.0` when absent.
pub open spec fn num_field_value(s: Seq<char>, key: Seq<char>) -> Seq<char> {
    if json_num_field(s, key) is Some {
        json_num_field(s, key).unwrap()
    } else {
        "0.0"@
    }
}

/// Whether a cleaned answer decodes into the invoice schema: one JSON
/// object whose known fields hold a string where present, and whose
/// amount holds a number where present.
pub open spec fn schema_ok(s: Seq<char>) -> bool {
    &&& json_valid(s)
    &&& json_object(s)
    &&& str_field_ok(s, "payerName"@)
    &&& str_field_ok(s, "payerInn"@)
    &&& str_field_ok(s, "payerAddress"@)
    &&& str_field_ok(s, "receiverName"@)
    &&& str_field_ok(s, "receiverInn"@)
    &&& str_field_ok(s, "receiverAddress"@)
    &&& str_field_ok(s, "receiverAccount"@)
    &&& str_field_ok(s, "receiverBankName"@)
    &&& str_field_ok(s, "receiverBankBic"@)
    &&& str_field_ok(s, "receiverBankCorrAccount"@)
    &&& num_field_ok(s, "amount"@)
    &&& str_field_ok(s, "purpose"@)
}

/// Reads one string field of the schema: its value when present, the
/// empty string when absent, a descriptive reason when present with
/// another type.
fn read_str_field(s: &str, key: &str) -> (r: Result<String, String>)
    ensures
        match r {
            Ok(v) => str_field_ok(s@, key@) && v@ == str_field_value(s@, key@),
            Err(_) => !str_field_ok(s@, key@),
        },
{
    match json_get_str(s, key) {
        Some(v) => Ok(v),
        None => {
            if json_field_present(s, key) {
                let mut msg = String::from_str("field ");
                msg.append(key);
                msg.append(" is not a string");
                Err(msg)
            } else {
                Ok(String::new())
            }
        },
    }
}

/// Reads the amount field: the number's decimal text when present, `0.0`
/// when absent, a descriptive reason when present with another type.
fn read_num_field(s: &str, key: &str) -> (r: Result<String, String>)
    ensures
        match r {
            Ok(v) => num_field_ok(s@, key@) && v@ == num_field_value(s@, key@),
            Err(_) => !num_field_ok(s@, key@),
        },
{
    match json_get_num(s, key) {
        Some(v) => Ok(v),
        None => {
            if json_field_present(s, key) {
                let mut msg = String::from_str("field ");
                msg.append(key);
                msg.append(" is not a number");
                Err(msg)
            } else {
                Ok(String::from_str("0.0"))
            }
        },
    }
}

/// The response parser: strips the code-fence markers from the assembled
/// answer, trims it, and decodes the remaining text into the invoice
/// record. Succeeds exactly when the cleaned text fits the schema; every
/// failure carries the reason and the cleaned text.
pub fn parse_invoice(answer: &str) -> (r: Result<InvoiceInfo, InvoiceError>)
    ensures
        r is Ok <==> schema_ok(cleaned_of(answer@)),
        match r {
            Ok(inv) => {
                let s = cleaned_of(answer@);
                &&& inv.payer_name@ == str_field_value(s, "payerName"@)
                &&& inv.payer_inn@ == str_field_value(s, "payerInn"@)
                &&& inv.payer_address@ == str_field_value(s, "payerAddress"@)
                &&& inv.receiver_name@ == str_field_value(s, "receiverName"@)
                &&& inv.receiver_inn@ == str_field_value(s, "receiverInn"@)
                &&& inv.receiver_address@ == str_field_value(s, "receiverAddress"@)
                &&& inv.receiver_account@ == str_field_value(s, "receiverAccount"@)
                &&& inv.receiver_bank_name@ == str_field_value(s, "receiverBankName"@)
                &&& inv.receiver_bank_bic@ == str_field_value(s, "receiverBankBic"@)
                &&& inv.receiver_bank_corr_account@ == str_field_value(
                    s,
                    "receiverBankCorrAccount"@,
                )
                &&& inv.amount@ == num_field_value(s, "amount"@)
                &&& inv.purpose@ == str_field_value(s, "purpose"@)
            },
            Err(e) => match e {
                InvoiceError::Schema(_, cleaned) => cleaned@ == cleaned_of(answer@),
                _ => false,
            },
        },
{
    proof {
        reveal_strlit("```json");
        reveal_strlit("```");
    }
    let stripped_json = strip_occurrences(answer, "```json");
    let stripped = strip_occurrences(stripped_json.as_str(), "```");
    let cleaned = trim_text(stripped.as_str());
    proof {
        assert(cleaned@ == cleaned_of(answer@));
    }
    match json_check(cleaned.as_str()) {
        Err(msg) => {
            return Err(InvoiceError::Schema(msg, cleaned));
        },
        Ok(()) => {},
    }
    if !json_is_object(cleaned.as_str()) {
        return Err(
            InvoiceError::Schema(String::from_str("the answer is not a JSON object"), cleaned),
        );
    }
    let payer_name = match read_str_field(cleaned.as_str(), "payerName") {
        Ok(v) => v,
        Err(m) => {
            return Err(InvoiceError::Schema(m, cleaned));
        },
    };
    let payer_inn = match read_str_field(cleaned.as_str(), "payerInn") {
        Ok(v) => v,
        Err(m) => {
            return Err(InvoiceError::Schema(m, cleaned));
        },
    };
    let payer_address = match read_str_field(cleaned.as_str(), "payerAddress") {
        Ok(v) => v,
        Err(m) => {
            return Err(InvoiceError::Schema(m, cleaned));
        },
    };
    let receiver_name = match read_str_field(cleaned.as_str(), "receiverName") {
        Ok(v) => v,
        Err(m) => {
            return Err(InvoiceError::Schema(m, cleaned));
        },
    };
    let receiver_inn = match read_str_field(cleaned.as_str(), "receiverInn") {
        Ok(v) => v,
        Err(m) => {
            return Err(InvoiceError::Schema(m, cleaned));
        },
    };
    let receiver_address = match read_str_field(cleaned.as_str(), "receiverAddress") {
        Ok(v) => v,
        Err(m) => {
            return Err(InvoiceError::Schema(m, cleaned));
        },
    };
    let receiver_account = match read_str_field(cleaned.as_str(), "receiverAccount") {
        Ok(v) => v,
        Err(m) => {
            return Err(InvoiceError::Schema(m, cleaned));
        },
    };
    let receiver_bank_name = match read_str_field(cleaned.as_str(), "receiverBankName") {
        Ok(v) => v,
        Err(m) => {
            return Err(InvoiceError::Schema(m, cleaned));
        },
    };
    let receiver_bank_bic = match read_str_field(cleaned.as_str(), "receiverBankBic") {
        Ok(v) => v,
        Err(m) => {
            return Err(InvoiceError::Schema(m, cleaned));
        },
    };
    let receiver_bank_corr_account = match read_str_field(
        cleaned.as_str(),
        "receiverBankCorrAccount",
    ) {
        Ok(v) => v,
        Err(m) => {
            return Err(InvoiceError::Schema(m, cleaned));
        },
    };
    let amount = match read_num_field(cleaned.as_str(), "amount") {
        Ok(v) => v,
        Err(m) => {
            return Err(InvoiceError::Schema(m, cleaned));
        },
    };
    let purpose = match read_str_field(cleaned.as_str(), "purpose") {
        Ok(v) => v,
        Err(m) => {
            return Err(InvoiceError::Schema(m, cleaned));
        },
    };
    Ok(
        InvoiceInfo {
            payer_name,
            payer_inn,
            payer_address,
            receiver_name,
            receiver_inn,
            receiver_address,
            receiver_account,
            receiver_bank_name,
            receiver_bank_bic,
            receiver_bank_corr_account,
            amount,
            purpose,
        },
    )
}

} // verus!
