//! Broker addresses and broker-specific option handling.
//!
//! A broker list is a comma-separated sequence of `host[:port]` entries;
//! normalization appends the default port `9092` where none is given.

use vstd::prelude::*;

use crate::csr::sos_of_value;
use crate::errors::PurifyError;
use crate::options::ConnOptions;
use crate::options::OptionValue;
use crate::options::OptionValueView;
use crate::options::StmtOption;
use crate::options::StmtOptionView;
use crate::options::StringOrSecret;
use crate::options::StringOrSecretView;
use crate::options::find_option;
use crate::options::lemma_stmt_get_some;
use crate::options::stmt_get;
use crate::strutil::chars_to_string;
use crate::strutil::dec_digits;
use crate::strutil::push_str;
use crate::strutil::str_chars;
use crate::strutil::u64_to_string;

verus! {

/// Splits a character sequence at commas. The result always holds at least
/// one (possibly empty) part.
pub open spec fn split_commas(s: Seq<char>) -> Seq<Seq<char>>
    decreases s.len(),
{
    if s.len() == 0 {
        seq![Seq::empty()]
    } else {
        let r = split_commas(s.drop_last());
        if s.last() == ',' {
            r.push(Seq::empty())
        } else {
            r.update(r.len() - 1, r.last().push(s.last()))
        }
    }
}

/// The split never comes back empty.
pub proof fn lemma_split_nonempty(s: Seq<char>)
    ensures
        split_commas(s).len() >= 1,
    decreases s.len(),
{
    if s.len() > 0 {
        lemma_split_nonempty(s.drop_last());
    }
}

/// Whether the sequence holds a colon.
pub open spec fn has_colon(p: Seq<char>) -> bool {
    exists|i: int| 0 <= i < p.len() && p[i] == ':'
}

/// The numeric value of a digit sequence.
pub open spec fn digits_val(s: Seq<char>) -> int
    decreases s.len(),
{
    if s.len() == 0 {
        0
    } else {
        digits_val(s.drop_last()) * 10 + (s.last() as int - 48)
    }
}

/// Powers of ten, for bounding digit values.
pub open spec fn pow10(n: nat) -> int
    decreases n,
{
    if n == 0 {
        1
    } else {
        10 * pow10((n - 1) as nat)
    }
}

/// Powers of ten are positive.
proof fn lemma_pow10_pos(n: nat)
    ensures
        pow10(n) >= 1,
    decreases n,
{
    if n > 0 {
        lemma_pow10_pos((n - 1) as nat);
    }
}

/// Larger exponents give larger powers.
proof fn lemma_pow10_mono(a: nat, b: nat)
    requires
        a <= b,
    ensures
        pow10(a) <= pow10(b),
        pow10(a) >= 1,
    decreases b,
{
    lemma_pow10_pos(a);
    if a < b {
        lemma_pow10_mono(a, (b - 1) as nat);
        lemma_pow10_pos((b - 1) as nat);
    }
}

/// A digit sequence of length `n` has value below ten to the `n`.
proof fn lemma_digits_val_bound(s: Seq<char>)
    requires
        forall|i: int| 0 <= i < s.len() ==> '0' <= #[trigger] s[i] <= '9',
    ensures
        0 <= digits_val(s) < pow10(s.len() as nat),
    decreases s.len(),
{
    if s.len() > 0 {
        let t = s.drop_last();
        assert(forall|i: int| 0 <= i < t.len() ==> '0' <= #[trigger] t[i] <= '9') by {
            assert(forall|i: int| 0 <= i < t.len() ==> t[i] == s[i]);
        }
        lemma_digits_val_bound(t);
        assert('0' <= s.last() <= '9');
        assert(pow10(s.len() as nat) == 10 * pow10((s.len() - 1) as nat));
    }
}

/// A legal port: one to five digits, at most 65535.
pub open spec fn is_port(s: Seq<char>) -> bool {
    &&& 1 <= s.len() <= 5
    &&& forall|i: int| 0 <= i < s.len() ==> '0' <= #[trigger] s[i] <= '9'
    &&& digits_val(s) <= 65535
}

/// A legal broker entry: a non-empty host, optionally followed by a colon
/// and a port.
pub open spec fn valid_broker(p: Seq<char>) -> bool {
    ||| (p.len() > 0 && !has_colon(p))
    ||| (exists|i: int|
        0 < i < p.len() && #[trigger] p[i] == ':' && !has_colon(p.take(i)) && is_port(
            p.skip(i + 1),
        ))
}

/// A broker entry with the default port appended where none was given.
pub open spec fn normalized_broker(p: Seq<char>) -> Seq<char> {
    if !has_colon(p) {
        p + ":9092"@
    } else {
        p
    }
}

/// The normalized broker list of an address string, or nothing if any
/// entry is illegal.
pub open spec fn brokers_of(s: Seq<char>) -> Option<Seq<Seq<char>>> {
    if forall|i: int| 0 <= i < split_commas(s).len() ==> valid_broker(#[trigger] split_commas(s)[i]) {
        Some(split_commas(s).map_values(|p: Seq<char>| normalized_broker(p)))
    } else {
        None
    }
}

/// The first colon is the only candidate split point.
proof fn lemma_first_colon_unique(p: Seq<char>, i: int, j: int)
    requires
        0 <= i < p.len(),
        p[i] == ':',
        !has_colon(p.take(i)),
        0 <= j < p.len(),
        p[j] == ':',
        !has_colon(p.take(j)),
    ensures
        i == j,
{
    if i < j {
        assert(p.take(j)[i] == p[i]);
    }
    if j < i {
        assert(p.take(i)[j] == p[j]);
    }
}

/// Validates one broker entry and appends the default port if none is
/// given.
fn normalize_broker(part: &Vec<char>) -> (r: Result<String, PurifyError>)
    ensures
        match r {
            Ok(b) => valid_broker(part@) && b@ == normalized_broker(part@),
            Err(e) => e is InvalidBrokerAddress && !valid_broker(part@),
        },
{
    // Find the first colon.
    let n = part.len();
    let mut c: usize = 0;
    while c < n && part[c] != ':'
        invariant
            0 <= c <= n == part@.len(),
            forall|k: int| 0 <= k < c ==> part@[k] != ':',
        decreases n - c,
    {
        c += 1;
    }
    if c == n {
        // No colon: a bare host; must be non-empty.
        if n == 0 {
            assert(!valid_broker(part@)) by {
                assert(!has_colon(part@));
            }
            return Err(PurifyError::InvalidBrokerAddress { address: chars_to_string(
                part.as_slice(),
            ) });
        }
        let mut b = chars_to_string(part.as_slice());
        push_str(&mut b, ":9092");
        proof {
            assert(!has_colon(part@));
            assert(b@ == normalized_broker(part@));
        }
        return Ok(b);
    }
    // part[c] is the first colon.
    let ghost ci = c as int;
    assert(part@[ci] == ':' && !has_colon(part@.take(ci))) by {
        if has_colon(part@.take(ci)) {
            let k = choose|k: int| 0 <= k < ci && part@.take(ci)[k] == ':';
            assert(part@[k] == ':');
        }
    }
    if c == 0 {
        assert(!valid_broker(part@)) by {
            assert(has_colon(part@));
            if valid_broker(part@) {
                let i = choose|i: int|
                    0 < i < part@.len() && #[trigger] part@[i] == ':' && !has_colon(part@.take(i))
                        && is_port(part@.skip(i + 1));
                lemma_first_colon_unique(part@, ci, i);
            }
        }
        return Err(PurifyError::InvalidBrokerAddress { address: chars_to_string(
            part.as_slice(),
        ) });
    }
    // Digits after the colon.
    let start = c + 1;
    let ghost port = part@.skip(ci + 1);
    assert(port.len() == n - start);
    let mut j: usize = start;
    let mut val: u32 = 0;
    let mut ok: bool = n - start >= 1 && n - start <= 5;
    proof {
        assert(port.take(0) =~= Seq::<char>::empty());
    }
    while j < n
        invariant
            start <= j <= n == part@.len(),
            0 < start,
            port == part@.skip(start - 1 + 1),
            ok ==> (1 <= port.len() <= 5 && forall|k: int|
                0 <= k < j - start ==> '0' <= #[trigger] port[k] <= '9'),
            ok ==> val == digits_val(port.take(j - start)) && val <= 99999,
            !ok ==> !is_port(port),
        decreases n - j,
    {
        let ch = part[j];
        if ok {
            if '0' <= ch && ch <= '9' {
                let d = (ch as u8) - 48;
                proof {
                    assert(port[j - start] == part@[j as int]);
                    let ghost js = j - start;
                    let ghost pre = port.take(js);
                    let ghost ext = port.take(js + 1);
                    assert(ext.drop_last() =~= pre);
                    assert(ext.last() == port[js as int]);
                    assert(forall|k: int| 0 <= k < ext.len() ==> '0' <= #[trigger] ext[k] <= '9')
                        by {
                        assert(forall|k: int| 0 <= k < ext.len() ==> ext[k] == port[k]);
                    }
                    lemma_digits_val_bound(pre);
                    lemma_pow10_mono((js) as nat, 4);
                    assert(pow10(0) == 1 && pow10(1) == 10 && pow10(2) == 100 && pow10(3) == 1000
                        && pow10(4) == 10000 && pow10(5) == 100000) by {
                        reveal_with_fuel(pow10, 6);
                    }
                    lemma_digits_val_bound(ext);
                    lemma_pow10_mono(ext.len() as nat, 5);
                }
                val = val * 10 + (d as u32);
            } else {
                proof {
                    assert(port[j - start] == part@[j as int]);
                    let ghost bad = j - start;
                    assert(!is_port(port)) by {
                        assert(!('0' <= port[bad as int] <= '9'));
                    }
                }
                ok = false;
            }
        }
        j += 1;
    }
    if ok && val <= 65535 {
        proof {
            assert(port.take(port.len() as int) =~= port);
            assert(is_port(port));
            assert(valid_broker(part@)) by {
                assert(0 < ci < part@.len() && part@[ci] == ':' && !has_colon(part@.take(ci))
                    && is_port(part@.skip(ci + 1)));
            }
            assert(has_colon(part@));
        }
        Ok(chars_to_string(part.as_slice()))
    } else {
        proof {
            if ok {
                assert(port.take(port.len() as int) =~= port);
                assert(!is_port(port));
            }
            assert(!valid_broker(part@)) by {
                assert(has_colon(part@));
                if valid_broker(part@) {
                    let i = choose|i: int|
                        0 < i < part@.len() && #[trigger] part@[i] == ':' && !has_colon(
                            part@.take(i),
                        ) && is_port(part@.skip(i + 1));
                    lemma_first_colon_unique(part@, ci, i);
                }
            }
        }
        Err(PurifyError::InvalidBrokerAddress { address: chars_to_string(part.as_slice()) })
    }
}

/// Splitting after one more character extends the last part or opens a new
/// one.
proof fn lemma_split_step(s: Seq<char>, c: char)
    ensures
        c == ',' ==> split_commas(s.push(c)) == split_commas(s).push(Seq::<char>::empty()),
        c != ',' ==> split_commas(s.push(c)) == split_commas(s).update(
            split_commas(s).len() - 1,
            split_commas(s).last().push(c),
        ),
{
    let t = s.push(c);
    assert(t.drop_last() =~= s);
    assert(t.last() == c);
}

/// Parses a comma-separated broker list, normalizing each entry.
///
/// Succeeds exactly when every entry is a well-formed `host[:port]`.
pub fn parse_kafka_addrs(s: &str) -> (r: Result<Vec<String>, PurifyError>)
    ensures
        match r {
            Ok(v) => brokers_of(s@) == Some(v@.map_values(|b: String| b@)),
            Err(e) => e is InvalidBrokerAddress && brokers_of(s@) is None,
        },
{
    let chars = str_chars(s);
    let n = chars.len();
    let mut out: Vec<String> = Vec::new();
    let ghost mut raw: Seq<Seq<char>> = Seq::empty();
    let mut cur: Vec<char> = Vec::new();
    let mut i: usize = 0;
    proof {
        assert(chars@.take(0) =~= Seq::<char>::empty());
        assert(split_commas(chars@.take(0)) =~= raw.push(cur@));
    }
    while i < n
        invariant
            0 <= i <= n == chars@.len(),
            chars@ == s@,
            split_commas(chars@.take(i as int)) == raw.push(cur@),
            out@.len() == raw.len(),
            forall|k: int| 0 <= k < raw.len() ==> valid_broker(#[trigger] raw[k]),
            forall|k: int|
                0 <= k < raw.len() ==> (#[trigger] out@[k])@ == normalized_broker(raw[k]),
        decreases n - i,
    {
        let c = chars[i];
        proof {
            assert(chars@.take(i as int).push(chars@[i as int]) =~= chars@.take(i + 1));
            lemma_split_step(chars@.take(i as int), chars@[i as int]);
        }
        if c == ',' {
            let done = cur;
            match normalize_broker(&done) {
                Ok(b) => {
                    out.push(b);
                    proof {
                        raw = raw.push(done@);
                    }
                    cur = Vec::new();
                    proof {
                        assert(split_commas(chars@.take(i + 1)) =~= raw.push(cur@));
                    }
                },
                Err(e) => {
                    proof {
                        let k = raw.len() as int;
                        lemma_split_prefix_part(s@, i as int, k);
                        lemma_split_prefix_len(s@, i as int);
                        assert(split_commas(s@)[k] == done@);
                        assert(!valid_broker(split_commas(s@)[k]));
                    }
                    return Err(e);
                },
            }
        } else {
            let ghost old_split = split_commas(chars@.take(i as int));
            cur.push(c);
            proof {
                assert(old_split.last() == old_split[old_split.len() - 1]);
                assert(split_commas(chars@.take(i + 1)) =~= raw.push(cur@)) by {
                    assert(old_split.len() == raw.len() + 1);
                    assert(old_split[old_split.len() - 1] == cur@.drop_last());
                    assert(cur@.drop_last().push(cur@.last()) =~= cur@);
                }
            }
        }
        i += 1;
    }
    proof {
        assert(chars@.take(n as int) =~= s@);
    }
    match normalize_broker(&cur) {
        Ok(b) => {
            out.push(b);
            proof {
                raw = raw.push(cur@);
                assert(split_commas(s@) =~= raw);
                assert(forall|k: int|
                    0 <= k < raw.len() ==> valid_broker(#[trigger] split_commas(s@)[k]));
                assert(out@.map_values(|b: String| b@) =~= split_commas(s@).map_values(
                    |p: Seq<char>| normalized_broker(p),
                ));
            }
            Ok(out)
        },
        Err(e) => {
            proof {
                assert(split_commas(s@)[raw.len() as int] == cur@);
            }
            Err(e)
        },
    }
}

/// A part finished before the end of the string is a part of the whole
/// string's split.
proof fn lemma_split_prefix_part(s: Seq<char>, i: int, k: int)
    requires
        0 <= i < s.len(),
        s[i] == ',',
        0 <= k < split_commas(s.take(i)).len(),
    ensures
        split_commas(s)[k] == split_commas(s.take(i))[k],
    decreases s.len() - i,
{
    if i == s.len() - 1 {
        assert(s.drop_last() =~= s.take(i));
        assert(split_commas(s) == split_commas(s.take(i)).push(Seq::<char>::empty()));
    } else {
        let t = s.drop_last();
        assert(t =~= s.take(s.len() - 1));
        assert(t.take(i) =~= s.take(i));
        assert(t[i] == s[i]);
        lemma_split_prefix_part(t, i, k);
        lemma_split_prefix_len(t, i);
        let r = split_commas(t);
        assert(k < r.len() - 1);
        if s.last() == ',' {
            assert(split_commas(s) == r.push(Seq::<char>::empty()));
        } else {
            assert(split_commas(s) == r.update(r.len() - 1, r.last().push(s.last())));
        }
        assert(split_commas(s)[k] == r[k]);
    }
}

/// After a comma at position `i`, the split of any extension has strictly
/// more parts than the split of the prefix before the comma.
proof fn lemma_split_prefix_len(s: Seq<char>, i: int)
    requires
        0 <= i < s.len(),
        s[i] == ',',
    ensures
        split_commas(s).len() > split_commas(s.take(i)).len(),
    decreases s.len() - i,
{
    if i == s.len() - 1 {
        assert(s.drop_last() =~= s.take(i));
    } else {
        let t = s.take(s.len() - 1);
        assert(t.take(i) =~= s.take(i));
        assert(t[i] == s[i]);
        lemma_split_prefix_len(t, i);
        assert(s.drop_last() =~= t);
        lemma_split_nonempty(t);
    }
}


/// A present text option as a config entry.
pub open spec fn text_config(v: Option<OptionValueView>) -> Option<StringOrSecretView> {
    match v {
        Some(OptionValueView::Text(s)) => Some(StringOrSecretView::Plain(s)),
        _ => None,
    }
}

/// A present bounded-number option as a config entry, rendered decimal.
pub open spec fn num_config(v: Option<OptionValueView>) -> Option<StringOrSecretView> {
    match v {
        Some(OptionValueView::Num(n)) => if n >= 0 {
            Some(StringOrSecretView::Plain(dec_digits(n as nat)))
        } else {
            None
        },
        _ => None,
    }
}

/// A present string-or-secret option as a config entry.
pub open spec fn sos_config(v: Option<OptionValueView>) -> Option<StringOrSecretView> {
    match v {
        Some(w) => sos_of_value(w),
        None => None,
    }
}

/// A present secret option as a config entry.
pub open spec fn secret_config(v: Option<OptionValueView>) -> Option<StringOrSecretView> {
    match v {
        Some(OptionValueView::Secret(id)) => Some(StringOrSecretView::Secret(id)),
        _ => None,
    }
}

/// The extracted client-config keys are pairwise distinct.
proof fn lemma_config_keys_distinct()
    ensures
        "acks"@ != "client.id"@,
        "acks"@ != "statistics.interval.ms"@,
        "acks"@ != "topic.metadata.refresh.interval.ms"@,
        "acks"@ != "fetch.message.max.bytes"@,
        "acks"@ != "isolation.level"@,
        "acks"@ != "security.protocol"@,
        "acks"@ != "sasl.mechanisms"@,
        "acks"@ != "sasl.username"@,
        "acks"@ != "sasl.password"@,
        "acks"@ != "ssl.key.pem"@,
        "acks"@ != "ssl.certificate.pem"@,
        "acks"@ != "ssl.ca.pem"@,
        "client.id"@ != "statistics.interval.ms"@,
        "client.id"@ != "topic.metadata.refresh.interval.ms"@,
        "client.id"@ != "fetch.message.max.bytes"@,
        "client.id"@ != "isolation.level"@,
        "client.id"@ != "security.protocol"@,
        "client.id"@ != "sasl.mechanisms"@,
        "client.id"@ != "sasl.username"@,
        "client.id"@ != "sasl.password"@,
        "client.id"@ != "ssl.key.pem"@,
        "client.id"@ != "ssl.certificate.pem"@,
        "client.id"@ != "ssl.ca.pem"@,
        "statistics.interval.ms"@ != "topic.metadata.refresh.interval.ms"@,
        "statistics.interval.ms"@ != "fetch.message.max.bytes"@,
        "statistics.interval.ms"@ != "isolation.level"@,
        "statistics.interval.ms"@ != "security.protocol"@,
        "statistics.interval.ms"@ != "sasl.mechanisms"@,
        "statistics.interval.ms"@ != "sasl.username"@,
        "statistics.interval.ms"@ != "sasl.password"@,
        "statistics.interval.ms"@ != "ssl.key.pem"@,
        "statistics.interval.ms"@ != "ssl.certificate.pem"@,
        "statistics.interval.ms"@ != "ssl.ca.pem"@,
        "topic.metadata.refresh.interval.ms"@ != "fetch.message.max.bytes"@,
        "topic.metadata.refresh.interval.ms"@ != "isolation.level"@,
        "topic.metadata.refresh.interval.ms"@ != "security.protocol"@,
        "topic.metadata.refresh.interval.ms"@ != "sasl.mechanisms"@,
        "topic.metadata.refresh.interval.ms"@ != "sasl.username"@,
        "topic.metadata.refresh.interval.ms"@ != "sasl.password"@,
        "topic.metadata.refresh.interval.ms"@ != "ssl.key.pem"@,
        "topic.metadata.refresh.interval.ms"@ != "ssl.certificate.pem"@,
        "topic.metadata.refresh.interval.ms"@ != "ssl.ca.pem"@,
        "fetch.message.max.bytes"@ != "isolation.level"@,
        "fetch.message.max.bytes"@ != "security.protocol"@,
        "fetch.message.max.bytes"@ != "sasl.mechanisms"@,
        "fetch.message.max.bytes"@ != "sasl.username"@,
        "fetch.message.max.bytes"@ != "sasl.password"@,
        "fetch.message.max.bytes"@ != "ssl.key.pem"@,
        "fetch.message.max.bytes"@ != "ssl.certificate.pem"@,
        "fetch.message.max.bytes"@ != "ssl.ca.pem"@,
        "isolation.level"@ != "security.protocol"@,
        "isolation.level"@ != "sasl.mechanisms"@,
        "isolation.level"@ != "sasl.username"@,
        "isolation.level"@ != "sasl.password"@,
        "isolation.level"@ != "ssl.key.pem"@,
        "isolation.level"@ != "ssl.certificate.pem"@,
        "isolation.level"@ != "ssl.ca.pem"@,
        "security.protocol"@ != "sasl.mechanisms"@,
        "security.protocol"@ != "sasl.username"@,
        "security.protocol"@ != "sasl.password"@,
        "security.protocol"@ != "ssl.key.pem"@,
        "security.protocol"@ != "ssl.certificate.pem"@,
        "security.protocol"@ != "ssl.ca.pem"@,
        "sasl.mechanisms"@ != "sasl.username"@,
        "sasl.mechanisms"@ != "sasl.password"@,
        "sasl.mechanisms"@ != "ssl.key.pem"@,
        "sasl.mechanisms"@ != "ssl.certificate.pem"@,
        "sasl.mechanisms"@ != "ssl.ca.pem"@,
        "sasl.username"@ != "sasl.password"@,
        "sasl.username"@ != "ssl.key.pem"@,
        "sasl.username"@ != "ssl.certificate.pem"@,
        "sasl.username"@ != "ssl.ca.pem"@,
        "sasl.password"@ != "ssl.key.pem"@,
        "sasl.password"@ != "ssl.certificate.pem"@,
        "sasl.password"@ != "ssl.ca.pem"@,
        "ssl.key.pem"@ != "ssl.certificate.pem"@,
        "ssl.key.pem"@ != "ssl.ca.pem"@,
        "ssl.certificate.pem"@ != "ssl.ca.pem"@,
{
    reveal_strlit("acks");
    reveal_strlit("client.id");
    reveal_strlit("statistics.interval.ms");
    reveal_strlit("topic.metadata.refresh.interval.ms");
    reveal_strlit("fetch.message.max.bytes");
    reveal_strlit("isolation.level");
    reveal_strlit("security.protocol");
    reveal_strlit("sasl.mechanisms");
    reveal_strlit("sasl.username");
    reveal_strlit("sasl.password");
    reveal_strlit("ssl.key.pem");
    reveal_strlit("ssl.certificate.pem");
    reveal_strlit("ssl.ca.pem");
    assert("acks"@.len() == 4);
    assert("client.id"@.len() == 9);
    assert("statistics.interval.ms"@.len() == 22);
    assert("topic.metadata.refresh.interval.ms"@.len() == 34);
    assert("fetch.message.max.bytes"@.len() == 23);
    assert("isolation.level"@.len() == 15);
    assert("security.protocol"@.len() == 17);
    assert("sasl.mechanisms"@.len() == 15);
    assert("sasl.username"@.len() == 13);
    assert("sasl.password"@.len() == 13);
    assert("ssl.key.pem"@.len() == 11);
    assert("ssl.certificate.pem"@.len() == 19);
    assert("ssl.ca.pem"@.len() == 10);
    assert("isolation.level"@[0] == 'i');
    assert("sasl.mechanisms"@[0] == 's');
    assert("sasl.username"@[5] == 'u');
    assert("sasl.password"@[5] == 'p');
}

/// When every broker config option present in the statement has a value
/// of the right shape and range.
pub open spec fn extract_ok(opts: Seq<StmtOptionView>) -> bool {
    &&& row_ok(stmt_get(opts, "acks"@), ConfigKind::Text, 0)
    &&& row_ok(stmt_get(opts, "client_id"@), ConfigKind::Text, 0)
    &&& row_ok(stmt_get(opts, "statistics_interval_ms"@), ConfigKind::Num, 86400000)
    &&& row_ok(stmt_get(opts, "topic_metadata_refresh_interval_ms"@), ConfigKind::Num, 3600000)
    &&& row_ok(stmt_get(opts, "fetch_message_max_bytes"@), ConfigKind::Num, 1000000000)
    &&& row_ok(stmt_get(opts, "isolation_level"@), ConfigKind::Text, 0)
    &&& row_ok(stmt_get(opts, "security_protocol"@), ConfigKind::Text, 0)
    &&& row_ok(stmt_get(opts, "sasl_mechanisms"@), ConfigKind::Text, 0)
    &&& row_ok(stmt_get(opts, "sasl_username"@), ConfigKind::Sos, 0)
    &&& row_ok(stmt_get(opts, "sasl_password"@), ConfigKind::SecretOnly, 0)
    &&& row_ok(stmt_get(opts, "ssl_key_pem"@), ConfigKind::SecretOnly, 0)
    &&& row_ok(stmt_get(opts, "ssl_certificate_pem"@), ConfigKind::Sos, 0)
    &&& row_ok(stmt_get(opts, "ssl_ca_pem"@), ConfigKind::Sos, 0)
}

/// The client-config entry the extraction produces under each key.
pub open spec fn extracted_entry(opts: Seq<StmtOptionView>, k: Seq<char>) -> Option<
    StringOrSecretView,
> {
    if k == "acks"@ {
        row_entry(stmt_get(opts, "acks"@), ConfigKind::Text)
    } else     if k == "client.id"@ {
        row_entry(stmt_get(opts, "client_id"@), ConfigKind::Text)
    } else     if k == "statistics.interval.ms"@ {
        row_entry(stmt_get(opts, "statistics_interval_ms"@), ConfigKind::Num)
    } else     if k == "topic.metadata.refresh.interval.ms"@ {
        row_entry(stmt_get(opts, "topic_metadata_refresh_interval_ms"@), ConfigKind::Num)
    } else     if k == "fetch.message.max.bytes"@ {
        row_entry(stmt_get(opts, "fetch_message_max_bytes"@), ConfigKind::Num)
    } else     if k == "isolation.level"@ {
        row_entry(stmt_get(opts, "isolation_level"@), ConfigKind::Text)
    } else     if k == "security.protocol"@ {
        row_entry(stmt_get(opts, "security_protocol"@), ConfigKind::Text)
    } else     if k == "sasl.mechanisms"@ {
        row_entry(stmt_get(opts, "sasl_mechanisms"@), ConfigKind::Text)
    } else     if k == "sasl.username"@ {
        row_entry(stmt_get(opts, "sasl_username"@), ConfigKind::Sos)
    } else     if k == "sasl.password"@ {
        row_entry(stmt_get(opts, "sasl_password"@), ConfigKind::SecretOnly)
    } else     if k == "ssl.key.pem"@ {
        row_entry(stmt_get(opts, "ssl_key_pem"@), ConfigKind::SecretOnly)
    } else     if k == "ssl.certificate.pem"@ {
        row_entry(stmt_get(opts, "ssl_certificate_pem"@), ConfigKind::Sos)
    } else     if k == "ssl.ca.pem"@ {
        row_entry(stmt_get(opts, "ssl_ca_pem"@), ConfigKind::Sos)
    } else {
        None
    }
}

/// When one present option fits its row's shape.
pub open spec fn row_ok(v: Option<OptionValueView>, kind: ConfigKind, max: i64) -> bool {
    match v {
        None => true,
        Some(w) => match kind {
            ConfigKind::Text => w is Text,
            ConfigKind::Num => w matches OptionValueView::Num(n) && 0 <= n <= max,
            ConfigKind::Sos => sos_of_value(w) is Some,
            ConfigKind::SecretOnly => w is Secret,
        },
    }
}

/// The config entry one row contributes when its option is present.
pub open spec fn row_entry(v: Option<OptionValueView>, kind: ConfigKind) -> Option<
    StringOrSecretView,
> {
    match kind {
        ConfigKind::Text => text_config(v),
        ConfigKind::Num => num_config(v),
        ConfigKind::Sos => sos_config(v),
        ConfigKind::SecretOnly => secret_config(v),
    }
}

/// The shape a config option's value must have.
#[derive(Clone, Copy, Debug, PartialEq, Eq, Structural)]
pub enum ConfigKind {
    /// Literal text only.
    Text,
    /// A bounded non-negative number.
    Num,
    /// Text or a secret handle.
    Sos,
    /// A secret handle only.
    SecretOnly,
}

/// Extracts one config row: reads the statement option under `stmt_key`,
/// checks its shape, and writes it under `conf_key`.
fn extract_row(
    m: &mut ConnOptions,
    options: &Vec<StmtOption>,
    stmt_key: &str,
    conf_key: &str,
    kind: ConfigKind,
    max: i64,
) -> (r: Result<(), PurifyError>)
    requires
        old(m).wf(),
    ensures
        final(m).wf(),
        r is Ok <==> row_ok(
            stmt_get(options@.map_values(|o: StmtOption| o@), stmt_key@),
            kind,
            max,
        ),
        match r {
            Ok(()) => {
                &&& forall|k: Seq<char>|
                    #![trigger final(m).spec_get(k)]
                    #![trigger old(m).spec_get(k)]
                    k != conf_key@ ==> final(m).spec_get(k) == old(m).spec_get(k)
                &&& final(m).spec_get(conf_key@) == (match row_entry(
                    stmt_get(options@.map_values(|o: StmtOption| o@), stmt_key@),
                    kind,
                ) {
                    Some(v) => Some(v),
                    None => old(m).spec_get(conf_key@),
                })
            },
            Err(e) => (e is OptionTypeError || e is OptionValueOutOfRange) && *final(m) == *old(
                m,
            ),
        },
{
    let ghost opts = options@.map_values(|o: StmtOption| o@);
    match find_option(options, stmt_key) {
        None => {
            proof {
                lemma_stmt_get_some(opts, stmt_key@);
            }
            Ok(())
        },
        Some(v) => {
            let sos: StringOrSecret = match (kind, v) {
                (ConfigKind::Text, OptionValue::Text(s)) => StringOrSecret::Plain(s.clone()),
                (ConfigKind::Num, OptionValue::Num(n)) => {
                    if *n < 0 || *n > max {
                        return Err(PurifyError::OptionValueOutOfRange {
                            key: stmt_key.to_owned(),
                        });
                    }
                    StringOrSecret::Plain(u64_to_string(*n as u64))
                },
                (ConfigKind::Sos, OptionValue::Text(s)) => StringOrSecret::Plain(s.clone()),
                (ConfigKind::Sos, OptionValue::Secret(id)) => StringOrSecret::Secret(*id),
                (ConfigKind::SecretOnly, OptionValue::Secret(id)) => StringOrSecret::Secret(*id),
                _ => {
                    return Err(PurifyError::OptionTypeError { key: stmt_key.to_owned() });
                },
            };
            m.insert(conf_key.to_owned(), sos);
            Ok(())
        },
    }
}

/// Extracts the broker configuration options from the statement options,
/// translating each statement key to its client-config key and rendering
/// numbers as decimal text.
///
/// Succeeds exactly when every present config option is well-shaped
/// ([`extract_ok`]); unrelated statement options are left alone.
#[verifier::rlimit(100)]
#[verifier::spinoff_prover]
pub fn extract_config(options: &Vec<StmtOption>) -> (r: Result<ConnOptions, PurifyError>)
    ensures
        r is Ok <==> extract_ok(options@.map_values(|o: StmtOption| o@)),
        match r {
            Ok(m) => m.wf() && forall|k: Seq<char>| #[trigger] m.spec_get(k) == extracted_entry(
                options@.map_values(|o: StmtOption| o@),
                k,
            ),
            Err(e) => e is OptionTypeError || e is OptionValueOutOfRange,
        },
{
    let ghost opts = options@.map_values(|o: StmtOption| o@);
    proof {
        lemma_config_keys_distinct();
    }
    let mut m = ConnOptions::new();
    if let Err(e) = extract_row(&mut m, options, "acks", "acks", ConfigKind::Text, 0) {
        return Err(e);
    }
    if let Err(e) = extract_row(&mut m, options, "client_id", "client.id", ConfigKind::Text, 0) {
        return Err(e);
    }
    if let Err(e) = extract_row(&mut m, options, "statistics_interval_ms", "statistics.interval.ms", ConfigKind::Num, 86400000) {
        return Err(e);
    }
    if let Err(e) = extract_row(&mut m, options, "topic_metadata_refresh_interval_ms", "topic.metadata.refresh.interval.ms", ConfigKind::Num, 3600000) {
        return Err(e);
    }
    if let Err(e) = extract_row(&mut m, options, "fetch_message_max_bytes", "fetch.message.max.bytes", ConfigKind::Num, 1000000000) {
        return Err(e);
    }
    if let Err(e) = extract_row(&mut m, options, "isolation_level", "isolation.level", ConfigKind::Text, 0) {
        return Err(e);
    }
    if let Err(e) = extract_row(&mut m, options, "security_protocol", "security.protocol", ConfigKind::Text, 0) {
        return Err(e);
    }
    if let Err(e) = extract_row(&mut m, options, "sasl_mechanisms", "sasl.mechanisms", ConfigKind::Text, 0) {
        return Err(e);
    }
    if let Err(e) = extract_row(&mut m, options, "sasl_username", "sasl.username", ConfigKind::Sos, 0) {
        return Err(e);
    }
    if let Err(e) = extract_row(&mut m, options, "sasl_password", "sasl.password", ConfigKind::SecretOnly, 0) {
        return Err(e);
    }
    if let Err(e) = extract_row(&mut m, options, "ssl_key_pem", "ssl.key.pem", ConfigKind::SecretOnly, 0) {
        return Err(e);
    }
    if let Err(e) = extract_row(&mut m, options, "ssl_certificate_pem", "ssl.certificate.pem", ConfigKind::Sos, 0) {
        return Err(e);
    }
    if let Err(e) = extract_row(&mut m, options, "ssl_ca_pem", "ssl.ca.pem", ConfigKind::Sos, 0) {
        return Err(e);
    }
    Ok(m)
}

/// Translates a time-based offset request into the instant to ask the
/// broker about, using the logical "now" for requests relative to the
/// end.
///
/// Absence of the option is a no-op, not an error.
pub fn time_offset_request(options: &Vec<StmtOption>, now: u64) -> (r: Result<
    Option<i64>,
    PurifyError,
>)
    ensures
        match stmt_get(options@.map_values(|o: StmtOption| o@), "kafka_time_offset"@) {
            None => r == Ok::<Option<i64>, PurifyError>(None::<i64>),
            Some(OptionValueView::Num(t)) => {
                if t >= 0 {
                    r == Ok::<Option<i64>, PurifyError>(Some(t))
                } else if now > i64::MAX {
                    r == Err::<Option<i64>, PurifyError>(PurifyError::TimeOffsetOutOfRange)
                } else if now + t < 0 {
                    r == Err::<Option<i64>, PurifyError>(PurifyError::TimeOffsetOutOfRange)
                } else {
                    r == Ok::<Option<i64>, PurifyError>(Some((now + t) as i64))
                }
            },
            Some(_) => r matches Err(e) && e is OptionTypeError,
        },
{
    let ghost opts = options@.map_values(|o: StmtOption| o@);
    match find_option(options, "kafka_time_offset") {
        None => {
            proof {
                lemma_stmt_get_some(opts, "kafka_time_offset"@);
            }
            Ok(None)
        },
        Some(OptionValue::Num(t)) => {
            let t = *t;
            if t >= 0 {
                Ok(Some(t))
            } else if now > i64::MAX as u64 {
                Err(PurifyError::TimeOffsetOutOfRange)
            } else {
                let shifted = now as i64 + t;
                if shifted < 0 {
                    Err(PurifyError::TimeOffsetOutOfRange)
                } else {
                    Ok(Some(shifted))
                }
            }
        },
        Some(_) => Err(PurifyError::OptionTypeError { key: "kafka_time_offset".to_owned() }),
    }
}

/// Whether a statement option is unrelated to time-based offsets.
pub open spec fn not_time_offset(o: StmtOptionView) -> bool {
    o.key != "kafka_time_offset"@
}

/// Clones a vector of numbers.
fn clone_i64_vec(v: &Vec<i64>) -> (r: Vec<i64>)
    ensures
        r@ == v@,
{
    let mut out: Vec<i64> = Vec::new();
    let mut i: usize = 0;
    while i < v.len()
        invariant
            0 <= i <= v@.len(),
            out@ == v@.take(i as int),
        decreases v@.len() - i,
    {
        out.push(v[i]);
        proof {
            assert(v@.take(i + 1) =~= v@.take(i as int).push(v@[i as int]));
        }
        i += 1;
    }
    proof {
        assert(v@.take(v@.len() as int) =~= v@);
    }
    out
}

/// Replaces a time-based offset request by the broker's answer: the
/// time-based key is dropped, every other option is kept in order, and a
/// `start_offset` entry holding one numeric offset per partition, in
/// partition order, is appended.
pub fn apply_start_offsets(with_options: &mut Vec<StmtOption>, offsets: &Vec<i64>)
    ensures
        final(with_options)@.map_values(|o: StmtOption| o@) == old(with_options)@.map_values(
            |o: StmtOption| o@,
        ).filter(|o: StmtOptionView| not_time_offset(o)).push(
            StmtOptionView {
                key: "start_offset"@,
                value: OptionValueView::NumArray(offsets@),
            },
        ),
{
    let ghost old_view = with_options@.map_values(|o: StmtOption| o@);
    let mut out: Vec<StmtOption> = Vec::new();
    let mut i: usize = 0;
    proof {
        reveal(Seq::filter);
        assert(old_view.take(0) =~= Seq::<StmtOptionView>::empty());
        assert(old_view.take(0).filter(|o: StmtOptionView| not_time_offset(o))
            =~= Seq::<StmtOptionView>::empty());
    }
    while i < with_options.len()
        invariant
            0 <= i <= with_options@.len(),
            old_view == with_options@.map_values(|o: StmtOption| o@),
            out@.map_values(|o: StmtOption| o@) == old_view.take(i as int).filter(
                |o: StmtOptionView| not_time_offset(o),
            ),
        decreases with_options@.len() - i,
    {
        proof {
            reveal(Seq::filter);
            assert(old_view.take(i + 1).drop_last() =~= old_view.take(i as int));
            assert(old_view.take(i + 1).last() == old_view[i as int]);
        }
        let o = &with_options[i];
        if !crate::strutil::str_eq(o.key.as_str(), "kafka_time_offset") {
            out.push(o.clone_value());
            proof {
                assert(out@.map_values(|o: StmtOption| o@) =~= old_view.take(i + 1).filter(
                    |o: StmtOptionView| not_time_offset(o),
                ));
            }
        } else {
            proof {
                assert(out@.map_values(|o: StmtOption| o@) =~= old_view.take(i + 1).filter(
                    |o: StmtOptionView| not_time_offset(o),
                ));
            }
        }
        i += 1;
    }
    proof {
        assert(old_view.take(old_view.len() as int) =~= old_view);
    }
    out.push(
        StmtOption {
            key: "start_offset".to_owned(),
            value: OptionValue::NumArray(clone_i64_vec(offsets)),
        },
    );
    proof {
        assert(out@.map_values(|o: StmtOption| o@) =~= old_view.filter(
            |o: StmtOptionView| not_time_offset(o),
        ).push(
            StmtOptionView {
                key: "start_offset"@,
                value: OptionValueView::NumArray(offsets@),
            },
        ));
    }
    *with_options = out;
}

} // verus!
