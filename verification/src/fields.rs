//! Reading the fields of a decrypted entry payload: roles, typed values, file references,
//! and the CSV compatibility columns.
use vstd::prelude::*;

use crate::json::{JsonValue, lookup, member_str, spec_as_str, spec_as_u64, spec_get,
    spec_get_str, spec_lookup, spec_member_str, str_eq};
use vstd::utf8::encode_utf8;
use crate::model::FileReference;
use crate::refs::{Candidate, References, collected, item_view};
use crate::text::{decimal_u64, join, owned, spec_ascii_uppercase, spec_decimal, spec_join,
    to_ascii_uppercase, views};

verus! {

/// The members of the objects among `items`, in order.
pub open spec fn object_items(items: Seq<JsonValue>) -> Seq<Vec<(String, JsonValue)>>
    decreases items.len(),
{
    if items.len() == 0 {
        Seq::empty()
    } else {
        match items.last() {
            JsonValue::Object(m) => object_items(items.drop_last()).push(m),
            _ => object_items(items.drop_last()),
        }
    }
}

/// The field objects of one group: the objects in its `fields` array.
pub open spec fn group_fields(group: JsonValue) -> Seq<Vec<(String, JsonValue)>> {
    match group {
        JsonValue::Object(m) => match spec_lookup(m@, "fields"@) {
            Some(JsonValue::Array(fs)) => object_items(fs@),
            _ => Seq::empty(),
        },
        _ => Seq::empty(),
    }
}

/// The field objects of a list of groups, group after group.
pub open spec fn groups_fields(groups: Seq<JsonValue>) -> Seq<Vec<(String, JsonValue)>>
    decreases groups.len(),
{
    if groups.len() == 0 {
        Seq::empty()
    } else {
        groups_fields(groups.drop_last()) + group_fields(groups.last())
    }
}

/// Every field object of a payload: those of the object groups in its `groups` array.
pub open spec fn spec_fields(payload: Seq<(String, JsonValue)>) -> Seq<Vec<(String, JsonValue)>> {
    match spec_lookup(payload, "groups"@) {
        Some(JsonValue::Array(groups)) => groups_fields(groups@),
        _ => Seq::empty(),
    }
}

/// Borrowed members seen as values.
pub open spec fn deref_all(s: Seq<&Vec<(String, JsonValue)>>) -> Seq<Vec<(String, JsonValue)>> {
    s.map_values(|m: &Vec<(String, JsonValue)>| *m)
}

fn push_objects<'a>(out: &mut Vec<&'a Vec<(String, JsonValue)>>, items: &'a Vec<JsonValue>)
    ensures
        deref_all(final(out)@) == deref_all(old(out)@) + object_items(items@),
{
    let ghost start = deref_all(out@);
    let mut i: usize = 0;
    while i < items.len()
        invariant
            i <= items.len(),
            deref_all(out@) == start + object_items(items@.take(i as int)),
        decreases items.len() - i,
    {
        assert(items@.take(i + 1).drop_last() =~= items@.take(i as int));
        assert(items@.take(i + 1).last() == items@[i as int]);
        let ghost prev = out@;
        match &items[i] {
            JsonValue::Object(m) => {
                out.push(m);
                assert(deref_all(out@) =~= deref_all(prev).push(*m));
            },
            _ => {},
        }
        i = i + 1;
        assert(deref_all(out@) =~= start + object_items(items@.take(i as int)));
    }
    assert(items@.take(items.len() as int) =~= items@);
}

/// The field objects of a payload, in order.
pub fn fields<'a>(payload: &'a Vec<(String, JsonValue)>) -> (r: Vec<&'a Vec<(String, JsonValue)>>)
    ensures
        deref_all(r@) == spec_fields(payload@),
{
    let mut out: Vec<&'a Vec<(String, JsonValue)>> = Vec::new();
    match lookup(payload, "groups") {
        Some(JsonValue::Array(groups)) => {
            let mut i: usize = 0;
            while i < groups.len()
                invariant
                    i <= groups.len(),
                    deref_all(out@) == groups_fields(groups@.take(i as int)),
                decreases groups.len() - i,
            {
                assert(groups@.take(i + 1).drop_last() =~= groups@.take(i as int));
                match &groups[i] {
                    JsonValue::Object(m) => match lookup(m, "fields") {
                        Some(JsonValue::Array(fs)) => push_objects(&mut out, fs),
                        _ => {},
                    },
                    _ => {},
                }
                i = i + 1;
                assert(deref_all(out@) =~= groups_fields(groups@.take(i as int)));
            }
            assert(groups@.take(groups.len() as int) =~= groups@);
        },
        _ => {},
    }
    out
}

/// The `string` value of a typed field value.
pub open spec fn spec_string_value(v: JsonValue) -> Option<Seq<char>> {
    if spec_get_str(v, "type"@) == Some("string"@) {
        spec_get_str(v, "value"@)
    } else {
        None
    }
}

/// Reads a `string` typed value.
pub fn string_value(value: &JsonValue) -> (r: Option<String>)
    ensures
        crate::attachments::opt_view(r) == spec_string_value(*value),
{
    match value.get_str("type") {
        Some(t) => if str_eq(t.as_str(), "string") {
            match value.get_str("value") {
                Some(s) => Some(s.clone()),
                None => None,
            }
        } else {
            None
        },
        None => None,
    }
}

/// The strings among `items`, in order.
pub open spec fn strings_of(items: Seq<JsonValue>) -> Seq<Seq<char>>
    decreases items.len(),
{
    if items.len() == 0 {
        Seq::empty()
    } else {
        match spec_as_str(items.last()) {
            Some(s) => strings_of(items.drop_last()).push(s),
            None => strings_of(items.drop_last()),
        }
    }
}

/// The `string_vec` value of a typed field value, joined with `, `.
pub open spec fn spec_string_vec_value(v: JsonValue) -> Option<Seq<char>> {
    if spec_get_str(v, "type"@) == Some("string_vec"@) {
        match spec_get(v, "value"@) {
            Some(JsonValue::Array(items)) => Some(spec_join(strings_of(items@), ", "@)),
            _ => None,
        }
    } else {
        None
    }
}

/// Reads a `string_vec` typed value as one comma-separated text.
pub fn string_vec_value(value: &JsonValue) -> (r: Option<String>)
    ensures
        crate::attachments::opt_view(r) == spec_string_vec_value(*value),
{
    let is_vec = match value.get_str("type") {
        Some(t) => str_eq(t.as_str(), "string_vec"),
        None => false,
    };
    if !is_vec {
        return None;
    }
    match value.get("value") {
        Some(JsonValue::Array(items)) => {
            let mut parts: Vec<String> = Vec::new();
            let mut i: usize = 0;
            while i < items.len()
                invariant
                    i <= items.len(),
                    views(parts@) == strings_of(items@.take(i as int)),
                decreases items.len() - i,
            {
                assert(items@.take(i + 1).drop_last() =~= items@.take(i as int));
                match items[i].as_str() {
                    Some(s) => parts.push(s.clone()),
                    None => {},
                }
                i = i + 1;
                assert(views(parts@) =~= strings_of(items@.take(i as int)));
            }
            assert(items@.take(items.len() as int) =~= items@);
            Some(join(&parts, ", "))
        },
        _ => None,
    }
}

/// An upper-case hexadecimal digit for a value below sixteen.
pub open spec fn hex_upper(d: nat) -> char {
    if d < 10 { crate::text::digit_char(d) }
    else if d == 10 { 'A' }
    else if d == 11 { 'B' }
    else if d == 12 { 'C' }
    else if d == 13 { 'D' }
    else if d == 14 { 'E' }
    else { 'F' }
}

/// An ASCII letter or digit, as a byte.
pub open spec fn ascii_alphanumeric(b: u8) -> bool {
    (0x30 <= b && b <= 0x39) || (0x41 <= b && b <= 0x5a) || (0x61 <= b && b <= 0x7a)
}

/// Percent-encoding of bytes: ASCII letters and digits stay, every other byte becomes `%XX`.
pub open spec fn spec_percent_encode(bytes: Seq<u8>) -> Seq<char>
    decreases bytes.len(),
{
    if bytes.len() == 0 {
        Seq::empty()
    } else {
        let b = bytes.last();
        spec_percent_encode(bytes.drop_last()) + if ascii_alphanumeric(b) {
            seq![b as char]
        } else {
            seq!['%', hex_upper((b / 16) as nat), hex_upper((b % 16) as nat)]
        }
    }
}

/// `percent_encoding::utf8_percent_encode` with the `NON_ALPHANUMERIC` set, rendered to a
/// string: each byte of the text's UTF-8 encoding that is not an ASCII letter or digit is
/// written as `%` and two upper-case hexadecimal digits; letters and digits are kept.
#[verifier::external_body]
fn encode_uri_component(value: &str) -> (r: String)
    ensures
        r@ == spec_percent_encode(encode_utf8(value@)),
{
    percent_encoding::utf8_percent_encode(value, percent_encoding::NON_ALPHANUMERIC).to_string()
}

/// A number member of a TOTP configuration, or its default.
pub open spec fn config_number(config: Seq<(String, JsonValue)>, key: Seq<char>, default: u64) -> u64 {
    match spec_lookup(config, key) {
        Some(v) => match spec_as_u64(v) {
            Some(n) => n,
            None => default,
        },
        None => default,
    }
}

/// The `otpauth://` URI of a TOTP configuration with this secret and account.
pub open spec fn otpauth_uri(config: Seq<(String, JsonValue)>, secret: Seq<char>, account: Seq<char>) -> Seq<char> {
    let issuer = spec_member_str(config, "issuer"@);
    let algorithm = spec_ascii_uppercase(match spec_member_str(config, "algorithm"@) {
        Some(a) => a,
        None => "sha1"@,
    });
    let encoded_account = spec_percent_encode(encode_utf8(account));
    let label = match issuer {
        Some(i) => spec_percent_encode(encode_utf8(i)) + ":"@ + encoded_account,
        None => encoded_account,
    };
    let base = "otpauth://totp/"@ + label + "?secret="@ + secret + "&algorithm="@ + algorithm
        + "&digits="@ + spec_decimal(config_number(config, "digits"@, 6) as nat)
        + "&period="@ + spec_decimal(config_number(config, "period"@, 30) as nat);
    match issuer {
        Some(i) => base + "&issuer="@ + spec_percent_encode(encode_utf8(i)),
        None => base,
    }
}

/// The `totp` value of a typed field value, as an `otpauth://` URI.
pub open spec fn spec_totp_value(v: JsonValue) -> Option<Seq<char>> {
    if spec_get_str(v, "type"@) == Some("totp"@) {
        match spec_get(v, "value"@) {
            Some(JsonValue::Object(config)) => match (spec_member_str(config@, "secret"@),
                spec_member_str(config@, "account"@)) {
                (Some(secret), Some(account)) => Some(otpauth_uri(config@, secret, account)),
                _ => None,
            },
            _ => None,
        }
    } else {
        None
    }
}

fn config_u64(config: &Vec<(String, JsonValue)>, key: &str, default: u64) -> (r: u64)
    ensures
        r == config_number(config@, key@, default),
{
    match lookup(config, key) {
        Some(v) => match v.as_u64() {
            Some(n) => n,
            None => default,
        },
        None => default,
    }
}

/// Renders a `totp` typed value as an `otpauth://` URI.
pub fn totp_value(value: &JsonValue) -> (r: Option<String>)
    ensures
        crate::attachments::opt_view(r) == spec_totp_value(*value),
{
    let is_totp = match value.get_str("type") {
        Some(t) => str_eq(t.as_str(), "totp"),
        None => false,
    };
    if !is_totp {
        return None;
    }
    let config = match value.get("value") {
        Some(JsonValue::Object(config)) => config,
        _ => return None,
    };
    let secret = match member_str(config, "secret") {
        Some(s) => s,
        None => return None,
    };
    let account = match member_str(config, "account") {
        Some(a) => a,
        None => return None,
    };
    let issuer = member_str(config, "issuer");
    let algorithm = match member_str(config, "algorithm") {
        Some(a) => to_ascii_uppercase(a.as_str()),
        None => to_ascii_uppercase("sha1"),
    };
    let digits = config_u64(config, "digits", 6);
    let period = config_u64(config, "period", 30);
    let encoded_account = encode_uri_component(account.as_str());
    let label = match issuer {
        Some(i) => {
            let mut l = encode_uri_component(i.as_str());
            l.append(":");
            l.append(encoded_account.as_str());
            l
        },
        None => encoded_account,
    };
    let mut uri = owned("otpauth://totp/");
    uri.append(label.as_str());
    uri.append("?secret=");
    uri.append(secret.as_str());
    uri.append("&algorithm=");
    uri.append(algorithm.as_str());
    uri.append("&digits=");
    uri.append(decimal_u64(digits).as_str());
    uri.append("&period=");
    uri.append(decimal_u64(period).as_str());
    match issuer {
        Some(i) => {
            uri.append("&issuer=");
            uri.append(encode_uri_component(i.as_str()).as_str());
        },
        None => {},
    }
    Some(uri)
}

/// The column that a field role fills in the CSV export.
pub open spec fn csv_slot(role: Seq<char>) -> Option<int> {
    if role == "title"@ { Some(0) }
    else if role == "tags"@ { Some(1) }
    else if role == "note"@ { Some(2) }
    else if role == "username"@ { Some(3) }
    else if role == "password"@ { Some(4) }
    else if role == "url"@ { Some(5) }
    else if role == "totp"@ { Some(6) }
    else if role == "card_name"@ { Some(7) }
    else if role == "card_number"@ { Some(8) }
    else if role == "card_exp"@ { Some(9) }
    else if role == "card_cvv"@ { Some(10) }
    else { None }
}

/// The text of a CSV cell in `column` for a typed value; empty when the value has another type.
pub open spec fn cell_text(column: int, v: JsonValue) -> Seq<char> {
    let o = if column == 1 {
        spec_string_vec_value(v)
    } else if column == 6 {
        spec_totp_value(v)
    } else {
        spec_string_value(v)
    };
    match o {
        Some(s) => s,
        None => Seq::empty(),
    }
}

/// The row after one field: a field with a known role and a value sets its column.
pub open spec fn row_after(row: Seq<Seq<char>>, field: Vec<(String, JsonValue)>) -> Seq<Seq<char>> {
    match spec_member_str(field@, "role"@) {
        Some(role) => match spec_lookup(field@, "value"@) {
            Some(v) => match csv_slot(role) {
                Some(k) => row.update(k, cell_text(k, v)),
                None => row,
            },
            None => row,
        },
        None => row,
    }
}

/// A row of eleven empty cells.
pub open spec fn empty_row() -> Seq<Seq<char>> {
    Seq::new(11, |i: int| Seq::<char>::empty())
}

/// The CSV row of the fields, applied in order: later fields win.
pub open spec fn spec_csv_row(fs: Seq<Vec<(String, JsonValue)>>) -> Seq<Seq<char>>
    decreases fs.len(),
{
    if fs.len() == 0 {
        empty_row()
    } else {
        row_after(spec_csv_row(fs.drop_last()), fs.last())
    }
}

fn role_slot(role: &str) -> (r: Option<usize>)
    ensures
        match r {
            Some(k) => csv_slot(role@) == Some(k as int),
            None => csv_slot(role@) is None,
        },
{
    if str_eq(role, "title") { Some(0) }
    else if str_eq(role, "tags") { Some(1) }
    else if str_eq(role, "note") { Some(2) }
    else if str_eq(role, "username") { Some(3) }
    else if str_eq(role, "password") { Some(4) }
    else if str_eq(role, "url") { Some(5) }
    else if str_eq(role, "totp") { Some(6) }
    else if str_eq(role, "card_name") { Some(7) }
    else if str_eq(role, "card_number") { Some(8) }
    else if str_eq(role, "card_exp") { Some(9) }
    else if str_eq(role, "card_cvv") { Some(10) }
    else { None }
}

/// The column headers of the CSV export.
pub open spec fn spec_csv_header() -> Seq<Seq<char>> {
    seq!["Title"@, "Tags"@, "Notes"@, "Username"@, "Password"@, "URL"@, "Two-Factor Secret"@,
        "Cardholder Name"@, "Card Number"@, "Card Expiration"@, "Card CVV"@]
}

/// The column headers of the CSV export, in Buddy's compatibility order.
pub fn csv_header() -> (r: Vec<String>)
    ensures
        views(r@) == spec_csv_header(),
{
    let mut h: Vec<String> = Vec::new();
    h.push(owned("Title"));
    h.push(owned("Tags"));
    h.push(owned("Notes"));
    h.push(owned("Username"));
    h.push(owned("Password"));
    h.push(owned("URL"));
    h.push(owned("Two-Factor Secret"));
    h.push(owned("Cardholder Name"));
    h.push(owned("Card Number"));
    h.push(owned("Card Expiration"));
    h.push(owned("Card CVV"));
    assert(views(h@) =~= spec_csv_header());
    h
}

fn text_or_empty(o: Option<String>) -> (r: String)
    ensures
        r@ == match crate::attachments::opt_view(o) {
            Some(s) => s,
            None => Seq::<char>::empty(),
        },
{
    match o {
        Some(s) => s,
        None => String::new(),
    }
}

/// The CSV row of an entry: its title, tags, note, username, password, URL, TOTP URI and
/// card fields, each taken from the last field with that role.
pub fn csv_row(payload: &Vec<(String, JsonValue)>) -> (r: Vec<String>)
    ensures
        views(r@) == spec_csv_row(spec_fields(payload@)),
{
    let fs = fields(payload);
    let ghost all = deref_all(fs@);
    let mut row: Vec<String> = Vec::new();
    let mut c: usize = 0;
    while c < 11
        invariant
            c <= 11,
            row@.len() == c,
            forall|j: int| 0 <= j < c ==> (#[trigger] row@[j])@ == Seq::<char>::empty(),
        decreases 11 - c,
    {
        row.push(String::new());
        c = c + 1;
    }
    assert(views(row@) =~= empty_row());
    assert(all.take(0) =~= Seq::<Vec<(String, JsonValue)>>::empty());
    let mut i: usize = 0;
    while i < fs.len()
        invariant
            all == deref_all(fs@),
            i <= fs.len(),
            views(row@) == spec_csv_row(all.take(i as int)),
            row@.len() == 11,
        decreases fs.len() - i,
    {
        assert(all.take(i + 1).drop_last() =~= all.take(i as int));
        let field = fs[i];
        assert(*field == all[i as int]);
        match member_str(field, "role") {
            Some(role) => match lookup(field, "value") {
                Some(value) => match role_slot(role.as_str()) {
                    Some(k) => {
                        let cell = if k == 1 {
                            string_vec_value(value)
                        } else if k == 6 {
                            totp_value(value)
                        } else {
                            string_value(value)
                        };
                        let text = text_or_empty(cell);
                        let ghost before = views(row@);
                        row.set(k, text);
                        assert(views(row@) =~= before.update(k as int, cell_text(k as int, *value)));
                    },
                    None => {},
                },
                None => {},
            },
            None => {},
        }
        i = i + 1;
    }
    assert(all.take(fs.len() as int) =~= all);
    row
}

/// What a file object says about an attachment, when it names a blob id.
pub open spec fn file_candidate(file: JsonValue) -> Option<Candidate> {
    match spec_get_str(file, "blob_id"@) {
        Some(id) => Some((id, (
            match spec_get_str(file, "filename"@) {
                Some(f) => f,
                None => "attachment.bin"@,
            },
            spec_get_str(file, "mime_type"@),
            match spec_get(file, "size"@) {
                Some(v) => spec_as_u64(v),
                None => None,
            },
        ))),
        None => None,
    }
}

/// The candidates of a list of file objects, in order.
pub open spec fn files_candidates(files: Seq<JsonValue>) -> Seq<Candidate>
    decreases files.len(),
{
    if files.len() == 0 {
        Seq::empty()
    } else {
        match file_candidate(files.last()) {
            Some(c) => files_candidates(files.drop_last()).push(c),
            None => files_candidates(files.drop_last()),
        }
    }
}

/// The candidates of one field: the files of a `file` typed value.
pub open spec fn field_candidates(field: Vec<(String, JsonValue)>) -> Seq<Candidate> {
    match spec_lookup(field@, "value"@) {
        Some(v) => if spec_get_str(v, "type"@) == Some("file"@) {
            match spec_get(v, "value"@) {
                Some(JsonValue::Array(files)) => files_candidates(files@),
                _ => Seq::empty(),
            }
        } else {
            Seq::empty()
        },
        None => Seq::empty(),
    }
}

/// The candidates of a list of fields, field after field.
pub open spec fn fields_candidates(fs: Seq<Vec<(String, JsonValue)>>) -> Seq<Candidate>
    decreases fs.len(),
{
    if fs.len() == 0 {
        Seq::empty()
    } else {
        fields_candidates(fs.drop_last()) + field_candidates(fs.last())
    }
}

/// The file references an entry payload makes, in field order.
pub open spec fn payload_candidates(payload: Seq<(String, JsonValue)>) -> Seq<Candidate> {
    fields_candidates(spec_fields(payload))
}

/// The candidates of executable items.
pub open spec fn item_views(s: Seq<(String, FileReference)>) -> Seq<Candidate> {
    s.map_values(|e: (String, FileReference)| item_view(e))
}

fn push_file_candidates(out: &mut Vec<(String, FileReference)>, files: &Vec<JsonValue>)
    ensures
        item_views(final(out)@) == item_views(old(out)@) + files_candidates(files@),
{
    let ghost start = item_views(out@);
    let mut i: usize = 0;
    while i < files.len()
        invariant
            i <= files.len(),
            item_views(out@) == start + files_candidates(files@.take(i as int)),
        decreases files.len() - i,
    {
        assert(files@.take(i + 1).drop_last() =~= files@.take(i as int));
        assert(files@.take(i + 1).last() == files@[i as int]);
        let file = &files[i];
        let ghost prev = out@;
        match file.get_str("blob_id") {
            Some(id) => {
                let filename = match file.get_str("filename") {
                    Some(f) => f.clone(),
                    None => owned("attachment.bin"),
                };
                let mime_type = match file.get_str("mime_type") {
                    Some(m) => Some(m.clone()),
                    None => None,
                };
                let size = match file.get("size") {
                    Some(v) => v.as_u64(),
                    None => None,
                };
                let item = (id.clone(), FileReference { filename, mime_type, size });
                out.push(item);
                assert(item_views(out@) =~= item_views(prev).push(item_view(item)));
            },
            None => {},
        }
        i = i + 1;
        assert(item_views(out@) =~= start + files_candidates(files@.take(i as int)));
    }
    assert(files@.take(files.len() as int) =~= files@);
}

/// The file references of an entry payload, in the order its fields make them.
pub fn file_candidates(payload: &Vec<(String, JsonValue)>) -> (r: Vec<(String, FileReference)>)
    ensures
        item_views(r@) == payload_candidates(payload@),
{
    let fs = fields(payload);
    let ghost all = deref_all(fs@);
    let mut out: Vec<(String, FileReference)> = Vec::new();
    let mut i: usize = 0;
    assert(item_views(out@) =~= Seq::<Candidate>::empty());
    while i < fs.len()
        invariant
            all == deref_all(fs@),
            i <= fs.len(),
            item_views(out@) == fields_candidates(all.take(i as int)),
        decreases fs.len() - i,
    {
        assert(all.take(i + 1).drop_last() =~= all.take(i as int));
        let field = fs[i];
        assert(*field == all[i as int]);
        let ghost prev = item_views(out@);
        match lookup(field, "value") {
            Some(value) => {
                let is_file = match value.get_str("type") {
                    Some(t) => str_eq(t.as_str(), "file"),
                    None => false,
                };
                if is_file {
                    match value.get("value") {
                        Some(JsonValue::Array(files)) => push_file_candidates(&mut out, files),
                        _ => {},
                    }
                }
            },
            None => {},
        }
        i = i + 1;
        assert(item_views(out@) =~= fields_candidates(all.take(i as int)));
    }
    assert(all.take(fs.len() as int) =~= all);
    out
}

/// Records the file references of an entry payload, keeping the first reference for each
/// attachment id (also across entries collected earlier).
pub fn collect_file_references(payload: &Vec<(String, JsonValue)>, references: &mut References)
    requires
        old(references).wf(),
    ensures
        final(references).wf(),
        collected(old(references).items@, payload_candidates(payload@), final(references).items@),
{
    let candidates = file_candidates(payload);
    references.collect(candidates);
}

} // verus!
