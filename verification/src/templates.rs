//! Saved snippets the user can replay into a console.
//!
//! CRUD operates on an in-memory `Vec<Template>`; the whole list is persisted
//! after each mutation by the caller.

use vstd::prelude::*;

use crate::error::AppError;
use crate::storage::{
    ReadOutcome, Storage, StorageView, read_notice, storage_error_view, with_notice, write_result,
};
use crate::text::{concat, digit_char, opt_view, same, trim, trimmed};

verus! {

/// File name (without extension) inside the resolved data directory.
pub const FILE: &'static str = "templates";

/// Same ceiling as the typing engine: a template you could never type is not
/// worth storing.
pub const MAX_CONTENT_CHARS: usize = 1000000;

pub const MAX_NAME_CHARS: usize = 200;

pub const EMPTY_NAME: &'static str = "template name cannot be empty";

pub const NAME_TOO_LONG: &'static str = "template name is too long (max 200 characters)";

pub const CONTENT_TOO_LONG: &'static str = "template content is too long (max 1000000 characters)";

/// A named block of text. The two timestamps are RFC 3339 UTC strings.
#[derive(Debug, Clone)]
pub struct Template {
    pub id: String,
    pub name: String,
    pub content: String,
    pub created_at: String,
    pub updated_at: String,
}

pub open spec fn template_eq(a: Template, b: Template) -> bool {
    &&& a.id@ == b.id@
    &&& a.name@ == b.name@
    &&& a.content@ == b.content@
    &&& a.created_at@ == b.created_at@
    &&& a.updated_at@ == b.updated_at@
}

impl PartialEq for Template {
    fn eq(&self, other: &Self) -> (r: bool) {
        self.id == other.id && self.name == other.name && self.content == other.content
            && self.created_at == other.created_at && self.updated_at == other.updated_at
    }
}

impl vstd::std_specs::cmp::PartialEqSpecImpl for Template {
    open spec fn obeys_eq_spec() -> bool {
        true
    }

    open spec fn eq_spec(&self, other: &Self) -> bool {
        template_eq(*self, *other)
    }
}

impl Template {
    /// An identical copy.
    pub fn duplicate(&self) -> (r: Template)
        ensures
            r == *self,
    {
        Template {
            id: self.id.clone(),
            name: self.name.clone(),
            content: self.content.clone(),
            created_at: self.created_at.clone(),
            updated_at: self.updated_at.clone(),
        }
    }
}

/// The error a template name is refused with, if any.
pub open spec fn name_error(name: Seq<char>) -> Option<Seq<char>> {
    if trimmed(name).len() == 0 {
        Some(EMPTY_NAME@)
    } else if trimmed(name).len() > MAX_NAME_CHARS {
        Some(NAME_TOO_LONG@)
    } else {
        None
    }
}

/// The error template content is refused with, if any.
pub open spec fn content_error(content: Seq<char>) -> Option<Seq<char>> {
    if content.len() > MAX_CONTENT_CHARS {
        Some(CONTENT_TOO_LONG@)
    } else {
        None
    }
}

/// The first refusal for a name and content pair, name first.
pub open spec fn input_error(name: Seq<char>, content: Seq<char>) -> Option<Seq<char>> {
    match name_error(name) {
        Some(e) => Some(e),
        None => content_error(content),
    }
}

pub open spec fn is_invalid(e: AppError, m: Seq<char>) -> bool {
    e matches AppError::Invalid(x) && x@ == m
}

pub open spec fn is_not_found(e: AppError, id: Seq<char>) -> bool {
    e matches AppError::NotFound(x) && x@ == "no template with id "@ + id
}

/// Index of the first template with `id` at or after `i`, or the length.
pub open spec fn position_from(s: Seq<Template>, id: Seq<char>, i: int) -> int
    decreases s.len() - i,
{
    if i < 0 || i >= s.len() {
        s.len() as int
    } else if s[i].id@ == id {
        i
    } else {
        position_from(s, id, i + 1)
    }
}

pub open spec fn position(s: Seq<Template>, id: Seq<char>) -> int {
    position_from(s, id, 0)
}

pub open spec fn has_id(s: Seq<Template>, id: Seq<char>) -> bool {
    exists|i: int| 0 <= i < s.len() && #[trigger] s[i].id@ == id
}

/// `s` without the templates carrying `id`, in order.
pub open spec fn without_id(s: Seq<Template>, id: Seq<char>) -> Seq<Template>
    decreases s.len(),
{
    if s.len() == 0 {
        Seq::empty()
    } else if s.last().id@ == id {
        without_id(s.drop_last(), id)
    } else {
        without_id(s.drop_last(), id).push(s.last())
    }
}

/// Trim and check a template name.
pub fn validate_name(name: String) -> (r: Result<String, AppError>)
    ensures
        match name_error(name@) {
            Some(m) => r matches Err(e) && is_invalid(e, m),
            None => r matches Ok(n) && n@ == trimmed(name@),
        },
{
    let name = trim(name.as_str());
    let count = name.unicode_len();
    if count == 0 {
        return Err(AppError::Invalid(String::from_str(EMPTY_NAME)));
    }
    if count > MAX_NAME_CHARS {
        return Err(AppError::Invalid(String::from_str(NAME_TOO_LONG)));
    }
    Ok(name)
}

/// Check that template content is small enough to ever be typed.
pub fn validate_content(content: &str) -> (r: Result<(), AppError>)
    ensures
        match content_error(content@) {
            Some(m) => r matches Err(e) && is_invalid(e, m),
            None => r is Ok,
        },
{
    if content.unicode_len() > MAX_CONTENT_CHARS {
        return Err(AppError::Invalid(String::from_str(CONTENT_TOO_LONG)));
    }
    Ok(())
}

/// Append a new template with the given identifier and timestamp.
pub fn create_with(
    templates: &mut Vec<Template>,
    name: String,
    content: String,
    id: String,
    now: String,
) -> (r: Result<Template, AppError>)
    ensures
        match input_error(name@, content@) {
            Some(m) => r matches Err(e) && is_invalid(e, m) && final(templates)@ == old(templates)@,
            None => r matches Ok(t) && {
                &&& t.id == id
                &&& t.name@ == trimmed(name@)
                &&& t.content == content
                &&& t.created_at == now
                &&& t.updated_at == now
                &&& final(templates)@ == old(templates)@.push(t)
            },
        },
{
    let name = validate_name(name)?;
    validate_content(content.as_str())?;
    let template = Template {
        id,
        name,
        content,
        created_at: now.clone(),
        updated_at: now,
    };
    templates.push(template.duplicate());
    Ok(template)
}

/// A lower-case hexadecimal digit.
pub open spec fn is_lower_hex(c: char) -> bool {
    ('0' <= c && c <= '9') || ('a' <= c && c <= 'f')
}

/// The lower-case hexadecimal digit for `n` (below 16).
pub open spec fn hex_digit(n: u8) -> char {
    if n < 10 {
        digit_char(n as nat)
    } else if n == 10 {
        'a'
    } else if n == 11 {
        'b'
    } else if n == 12 {
        'c'
    } else if n == 13 {
        'd'
    } else if n == 14 {
        'e'
    } else {
        'f'
    }
}

/// Sixteen random bytes with the version (4, random) and variant (RFC 4122)
/// bits of a UUID set.
pub open spec fn v4_bytes(b: Seq<u8>) -> Seq<u8> {
    b.update(6, (b[6] & 0x0f) | 0x40).update(8, (b[8] & 0x3f) | 0x80)
}

/// Which of the 32 hex digits sits at position `i` of the hyphenated form.
pub open spec fn uuid_digit_index(i: int) -> int {
    if i < 8 {
        i
    } else if i < 13 {
        i - 1
    } else if i < 18 {
        i - 2
    } else if i < 23 {
        i - 3
    } else {
        i - 4
    }
}

/// Hex digit `j` of the bytes `b`: the high nibble of byte `j / 2` for even
/// `j`, the low nibble for odd.
pub open spec fn nibble(b: Seq<u8>, j: int) -> u8 {
    if j % 2 == 0 {
        b[j / 2] >> 4
    } else {
        b[j / 2] & 0x0f
    }
}

/// The identifier made from 16 random bytes: the version 4 UUID they give,
/// written in lower case with hyphens after the 8th, 12th, 16th and 20th
/// digit.
pub open spec fn uuid_text(b: Seq<u8>) -> Seq<char> {
    let v = v4_bytes(b);
    Seq::new(
        36,
        |i: int|
            if i == 8 || i == 13 || i == 18 || i == 23 {
                '-'
            } else {
                hex_digit(nibble(v, uuid_digit_index(i)))
            },
    )
}

/// The text of a version 4 UUID: 36 characters, hyphens at 8, 13, 18 and 23,
/// lower-case hex digits elsewhere, the version digit `4` at 14 and a variant
/// digit `8` to `b` at 19.
pub open spec fn is_v4_uuid_text(s: Seq<char>) -> bool {
    &&& s.len() == 36
    &&& forall|i: int|
        0 <= i < 36 ==> if i == 8 || i == 13 || i == 18 || i == 23 {
            #[trigger] s[i] == '-'
        } else {
            is_lower_hex(s[i])
        }
    &&& s[14] == '4'
    &&& (s[19] == '8' || s[19] == '9' || s[19] == 'a' || s[19] == 'b')
}

/// The identifier for the random bytes `b`:
/// `uuid::Builder::from_random_bytes(b).into_uuid().to_string()`. The
/// builder sets the version and variant bits (`with_version`,
/// `with_variant`), and `to_string` writes the hyphenated lower-case form
/// (`format_hyphenated`, `nibble_to_hex`).
#[verifier::external_body]
fn uuid_from_random(bytes: [u8; 16]) -> (id: String)
    ensures
        id@ == uuid_text(bytes@),
{
    uuid::Builder::from_random_bytes(bytes).into_uuid().to_string()
}

/// `10` to the power `e`.
pub open spec fn pow10(e: nat) -> nat
    decreases e,
{
    if e == 0 {
        1
    } else {
        10 * pow10((e - 1) as nat)
    }
}

/// How many digits of the fraction of a second chrono writes for `nanos`:
/// none for a whole second, otherwise milli-, micro- or nanoseconds, the
/// shortest that is exact.
pub open spec fn fraction_len(nanos: int) -> int {
    if nanos == 0 {
        0
    } else if nanos % 1_000_000 == 0 {
        3
    } else if nanos % 1000 == 0 {
        6
    } else {
        9
    }
}

pub open spec fn is_digit(c: char) -> bool {
    '0' <= c && c <= '9'
}

/// `s[at]` and `s[at + 1]` write `v` (below 100) in two decimal digits.
pub open spec fn two_digits(s: Seq<char>, at: int, v: int) -> bool {
    s[at] == digit_char((v / 10) as nat) && s[at + 1] == digit_char((v % 10) as nat)
}

/// Whether the instant lies between 1970 and the end of year 9999, and the
/// nanoseconds are within the second (no leap second).
pub open spec fn stamp_in_range(secs: i64, nanos: u32) -> bool {
    0 <= secs < 253402300800 && nanos < 1_000_000_000
}

/// The RFC 3339 text chrono writes for the UTC instant `secs` seconds and
/// `nanos` nanoseconds after the Unix epoch, for a year of four digits:
/// `YYYY-MM-DDTHH:MM:SS`, the fraction of a second when there is one, and
/// the offset `+00:00`; the time of day is the instant's.
pub open spec fn utc_rfc3339(s: Seq<char>, secs: int, nanos: int) -> bool {
    let f = fraction_len(nanos);
    let day = secs % 86400;
    &&& s.len() == 25 + if f > 0 {
        f + 1
    } else {
        0
    }
    &&& is_digit(s[0]) && is_digit(s[1]) && is_digit(s[2]) && is_digit(s[3])
    &&& s[4] == '-' && is_digit(s[5]) && is_digit(s[6])
    &&& s[7] == '-' && is_digit(s[8]) && is_digit(s[9])
    &&& s[10] == 'T'
    &&& two_digits(s, 11, day / 3600)
    &&& s[13] == ':'
    &&& two_digits(s, 14, (day % 3600) / 60)
    &&& s[16] == ':'
    &&& two_digits(s, 17, day % 60)
    &&& f > 0 ==> s[19] == '.'
    &&& forall|k: int|
        0 <= k < f ==> #[trigger] s[20 + k] == digit_char(((nanos / pow10((8 - k) as nat) as int)
            % 10) as nat)
    &&& s.subrange(s.len() - 6, s.len() as int) == "+00:00"@
}

/// What `chrono::DateTime::from_timestamp(secs, nanos)` followed by
/// `to_rfc3339` gives: `None` for an instant chrono cannot represent.
pub uninterp spec fn rfc3339_of(secs: i64, nanos: u32) -> Option<Seq<char>>;

/// The RFC 3339 text of a UTC instant:
/// `chrono::DateTime::from_timestamp(secs, nanos)` and `to_rfc3339`.
/// `from_timestamp` answers `None` only for seconds out of chrono's range or
/// an invalid nanosecond count; neither call panics. What is stated beyond
/// the name is the shape chrono writes for an instant in years 1970 to 9999;
/// which calendar date the seconds fall on is left to the name.
#[verifier::external_body]
fn rfc3339_at(secs: i64, nanos: u32) -> (r: Option<String>)
    ensures
        opt_view(r) == rfc3339_of(secs, nanos),
        stamp_in_range(secs, nanos) ==> r is Some,
        r matches Some(s) ==> (stamp_in_range(secs, nanos) ==> utc_rfc3339(s@, secs as int, nanos as int)),
{
    match chrono::DateTime::from_timestamp(secs, nanos) {
        Some(t) => Some(t.to_rfc3339()),
        None => None,
    }
}

/// What creating or updating answers when the clock gives an instant that
/// cannot be written down.
pub const CLOCK_UNREADABLE: &'static str = "the system clock reads a time that cannot be recorded";

/// Append a new template, identified by the random bytes `random` and
/// stamped with the instant `secs` seconds and `nanos` nanoseconds after the
/// Unix epoch (the current time), and return it.
pub fn create(
    templates: &mut Vec<Template>,
    name: String,
    content: String,
    random: [u8; 16],
    secs: i64,
    nanos: u32,
) -> (r: Result<Template, AppError>)
    ensures
        match input_error(name@, content@) {
            Some(m) => r matches Err(e) && is_invalid(e, m) && final(templates)@ == old(templates)@,
            None => match rfc3339_of(secs, nanos) {
                None => r matches Err(e) && is_invalid(e, CLOCK_UNREADABLE@) && final(templates)@
                    == old(templates)@,
                Some(now) => r matches Ok(t) && {
                    &&& t.id@ == uuid_text(random@)
                    &&& t.name@ == trimmed(name@)
                    &&& t.content == content
                    &&& t.created_at@ == now
                    &&& t.updated_at@ == now
                    &&& final(templates)@ == old(templates)@.push(t)
                },
            },
        },
        input_error(name@, content@) is None && stamp_in_range(secs, nanos) ==> (r matches Ok(t)
            && utc_rfc3339(t.created_at@, secs as int, nanos as int)),
{
    let now = match rfc3339_at(secs, nanos) {
        Some(now) => now,
        None => {
            validate_name(name)?;
            validate_content(content.as_str())?;
            return Err(AppError::Invalid(String::from_str(CLOCK_UNREADABLE)));
        },
    };
    let id = uuid_from_random(random);
    create_with(templates, name, content, id, now)
}

/// Replace the name and content of the template with `id`, stamping it with
/// `now`.
pub fn update_with(
    templates: &mut Vec<Template>,
    id: &str,
    name: String,
    content: String,
    now: String,
) -> (r: Result<Template, AppError>)
    ensures
        match input_error(name@, content@) {
            Some(m) => r matches Err(e) && is_invalid(e, m) && final(templates)@ == old(templates)@,
            None => if !has_id(old(templates)@, id@) {
                r matches Err(e) && is_not_found(e, id@) && final(templates)@ == old(templates)@
            } else {
                let k = position(old(templates)@, id@);
                &&& 0 <= k < old(templates)@.len()
                &&& r matches Ok(t) && {
                    &&& t.id == old(templates)@[k].id
                    &&& t.created_at == old(templates)@[k].created_at
                    &&& t.name@ == trimmed(name@)
                    &&& t.content == content
                    &&& t.updated_at == now
                    &&& final(templates)@ == old(templates)@.update(k, t)
                }
            },
        },
{
    let name = validate_name(name)?;
    validate_content(content.as_str())?;
    match find_index(templates, id) {
        Some(k) => {
            let updated = Template {
                id: templates[k].id.clone(),
                name,
                content,
                created_at: templates[k].created_at.clone(),
                updated_at: now,
            };
            templates.set(k, updated.duplicate());
            Ok(updated)
        },
        None => Err(AppError::NotFound(concat("no template with id ", id))),
    }
}

/// Where the first template with `id` sits, if any.
fn find_index(templates: &Vec<Template>, id: &str) -> (r: Option<usize>)
    ensures
        match r {
            Some(k) => has_id(templates@, id@) && k == position(templates@, id@) && k
                < templates@.len(),
            None => !has_id(templates@, id@),
        },
{
    let ghost s = templates@;
    let mut i: usize = 0;
    while i < templates.len()
        invariant
            templates@ == s,
            i <= s.len(),
            position(s, id@) == position_from(s, id@, i as int),
            forall|j: int| 0 <= j < i ==> s[j].id@ != id@,
        decreases s.len() - i,
    {
        if same(templates[i].id.as_str(), id) {
            proof {
                assert(position_from(s, id@, i as int) == i);
                assert(s[i as int].id@ == id@);
            }
            return Some(i);
        }
        i = i + 1;
    }
    None
}

/// Replace the name and content of an existing template, stamping it with the
/// instant `secs` seconds and `nanos` nanoseconds after the Unix epoch (the
/// current time).
pub fn update(
    templates: &mut Vec<Template>,
    id: &str,
    name: String,
    content: String,
    secs: i64,
    nanos: u32,
) -> (r: Result<Template, AppError>)
    ensures
        match input_error(name@, content@) {
            Some(m) => r matches Err(e) && is_invalid(e, m) && final(templates)@ == old(templates)@,
            None => if !has_id(old(templates)@, id@) {
                r matches Err(e) && is_not_found(e, id@) && final(templates)@ == old(templates)@
            } else {
                match rfc3339_of(secs, nanos) {
                    None => r matches Err(e) && is_invalid(e, CLOCK_UNREADABLE@)
                        && final(templates)@ == old(templates)@,
                    Some(now) => {
                        let k = position(old(templates)@, id@);
                        &&& 0 <= k < old(templates)@.len()
                        &&& r matches Ok(t) && {
                            &&& t.id == old(templates)@[k].id
                            &&& t.created_at == old(templates)@[k].created_at
                            &&& t.updated_at@ == now
                            &&& t.name@ == trimmed(name@)
                            &&& t.content == content
                            &&& final(templates)@ == old(templates)@.update(k, t)
                        }
                    },
                }
            },
        },
        input_error(name@, content@) is None && has_id(old(templates)@, id@) && stamp_in_range(
            secs,
            nanos,
        ) ==> (r matches Ok(t) && utc_rfc3339(t.updated_at@, secs as int, nanos as int)),
{
    let now = match rfc3339_at(secs, nanos) {
        Some(now) => now,
        None => {
            validate_name(name)?;
            validate_content(content.as_str())?;
            if find_index(templates, id).is_none() {
                return Err(AppError::NotFound(concat("no template with id ", id)));
            }
            return Err(AppError::Invalid(String::from_str(CLOCK_UNREADABLE)));
        },
    };
    update_with(templates, id, name, content, now)
}

/// Remove every template with `id`; refused when there is none.
pub fn delete(templates: &mut Vec<Template>, id: &str) -> (r: Result<(), AppError>)
    ensures
        final(templates)@ == without_id(old(templates)@, id@),
        final(templates)@ == old(templates)@.filter(id_differs(id@)),
        r is Ok <==> has_id(old(templates)@, id@),
        r matches Err(e) ==> is_not_found(e, id@),
{
    proof {
        law_delete_keeps_the_others_in_order(old(templates)@, id@);
    }
    let ghost s = templates@;
    let mut kept: Vec<Template> = Vec::new();
    let mut found = false;
    let mut i: usize = 0;
    while i < templates.len()
        invariant
            templates@ == s,
            i <= s.len(),
            kept@ == without_id(s.take(i as int), id@),
            found == has_id(s.take(i as int), id@),
        decreases s.len() - i,
    {
        let ghost prefix = s.take(i as int);
        proof {
            assert(s.take(i + 1).drop_last() =~= prefix);
            assert(s.take(i + 1).last() == s[i as int]);
        }
        if same(templates[i].id.as_str(), id) {
            found = true;
            proof {
                assert(s.take(i + 1)[i as int].id@ == id@);
            }
        } else {
            kept.push(templates[i].duplicate());
            proof {
                if has_id(s.take(i + 1), id@) {
                    let j = choose|j: int| 0 <= j < i + 1 && #[trigger] s.take(i + 1)[j].id@ == id@;
                    assert(prefix[j].id@ == id@);
                }
            }
        }
        i = i + 1;
    }
    proof {
        assert(s.take(s.len() as int) =~= s);
    }
    *templates = kept;
    if !found {
        return Err(AppError::NotFound(concat("no template with id ", id)));
    }
    Ok(())
}

/// Settle saving the templates to their file; `written` is what writing them
/// reported (see [`Storage::write`]).
pub fn save(storage: &Storage, written: Result<(), String>) -> (r: Result<(), AppError>)
    ensures
        r matches Err(e) ==> e is Storage,
        storage_error_view(r) == write_result(storage@, FILE@, written),
{
    storage.write(FILE, written)
}

/// Read the stored list, starting empty when there is none or it is unusable.
pub fn load(storage: &mut Storage, outcome: ReadOutcome<Vec<Template>>) -> (r: Vec<Template>)
    ensures
        old(storage)@.dir is None ==> r@ == Seq::<Template>::empty() && final(storage)@ == old(storage)@,
        old(storage)@.dir is Some ==> {
            &&& r@ == match outcome {
                ReadOutcome::Parsed(v) => v@,
                _ => Seq::<Template>::empty(),
            }
            &&& final(storage)@ == match read_notice(FILE@, "empty"@, outcome) {
                Some(n) => with_notice(old(storage)@, n, true),
                None => old(storage)@,
            }
        },
{
    storage.read(FILE, "empty", outcome, Vec::new())
}

proof fn lemma_without_absent(s: Seq<Template>, id: Seq<char>)
    requires
        !has_id(s, id),
    ensures
        without_id(s, id) == s,
    decreases s.len(),
{
    if s.len() > 0 {
        assert(!has_id(s.drop_last(), id)) by {
            if has_id(s.drop_last(), id) {
                let j = choose|j: int| 0 <= j < s.drop_last().len() && #[trigger] s.drop_last()[j].id@ == id;
                assert(s[j].id@ == id);
            }
        }
        lemma_without_absent(s.drop_last(), id);
        assert(s.last().id@ != id) by {
            assert(s[s.len() - 1].id@ == s.last().id@);
        }
        assert(s.drop_last().push(s.last()) =~= s);
    }
}

/// Deleting a template that was just created under a fresh identifier gives
/// back exactly the list as it was before.
pub proof fn law_delete_undoes_create(s: Seq<Template>, t: Template)
    requires
        !has_id(s, t.id@),
    ensures
        without_id(s.push(t), t.id@) == s,
{
    assert(s.push(t).drop_last() =~= s);
    lemma_without_absent(s, t.id@);
}

/// After a delete no template with that identifier is left, nothing was
/// added, and every survivor was already there.
pub proof fn law_delete_removes_exactly_the_id(s: Seq<Template>, id: Seq<char>)
    ensures
        !has_id(without_id(s, id), id),
        without_id(s, id).len() <= s.len(),
        forall|i: int| 0 <= i < without_id(s, id).len() ==> s.contains(#[trigger] without_id(s, id)[i]),
    decreases s.len(),
{
    if s.len() > 0 {
        law_delete_removes_exactly_the_id(s.drop_last(), id);
        let r = without_id(s.drop_last(), id);
        assert forall|i: int| 0 <= i < without_id(s, id).len() implies s.contains(
            #[trigger] without_id(s, id)[i],
        ) by {
            if s.last().id@ != id && i == r.len() {
                assert(s[s.len() - 1] == s.last());
            } else {
                assert(without_id(s, id)[i] == r[i]);
                let j = choose|j: int| 0 <= j < s.drop_last().len() && s.drop_last()[j] == r[i];
                assert(s[j] == r[i]);
            }
        }
        if has_id(without_id(s, id), id) {
            let j = choose|j: int| 0 <= j < without_id(s, id).len() && #[trigger] without_id(s, id)[j].id@ == id;
            if s.last().id@ != id && j == r.len() {
            } else {
                assert(r[j].id@ == id);
            }
        }
    }
}

/// Whether a template's identifier differs from `id`.
pub open spec fn id_differs(id: Seq<char>) -> spec_fn(Template) -> bool {
    |t: Template| t.id@ != id
}

/// A delete keeps every template whose identifier differs, in their order,
/// and only those.
pub proof fn law_delete_keeps_the_others_in_order(s: Seq<Template>, id: Seq<char>)
    ensures
        without_id(s, id) == s.filter(id_differs(id)),
        forall|i: int| 0 <= i < s.len() && s[i].id@ != id ==> #[trigger] without_id(s, id).contains(s[i]),
    decreases s.len(),
{
    reveal(Seq::filter);
    if s.len() > 0 {
        law_delete_keeps_the_others_in_order(s.drop_last(), id);
    }
    let keep = id_differs(id);
    assert forall|i: int| 0 <= i < s.len() && s[i].id@ != id implies #[trigger] without_id(s, id).contains(s[i]) by {
        s.lemma_filter_contains(keep, i);
    }
}

/// An update touches one template and keeps every identifier and the count.
pub proof fn law_update_keeps_identifiers(s: Seq<Template>, k: int, t: Template)
    requires
        0 <= k < s.len(),
        t.id == s[k].id,
    ensures
        s.update(k, t).len() == s.len(),
        forall|i: int| 0 <= i < s.len() ==> (#[trigger] s.update(k, t)[i]).id == s[i].id,
        forall|i: int| 0 <= i < s.len() && i != k ==> #[trigger] s.update(k, t)[i] == s[i],
{
}

/// Every identifier made from 16 bytes is the text of a version 4 UUID:
/// hyphenated, lower-case hex, version digit `4`, variant digit `8` to `b`.
pub proof fn law_identifiers_are_v4_uuids(b: Seq<u8>)
    requires
        b.len() == 16,
    ensures
        is_v4_uuid_text(uuid_text(b)),
{
    let v = v4_bytes(b);
    let t = uuid_text(b);
    assert forall|x: u8| #[trigger] (x >> 4) < 16 && (x & 0x0f) < 16 by {
        assert((x >> 4) < 16 && (x & 0x0f) < 16) by (bit_vector);
    }
    assert forall|i: int| 0 <= i < 36 && !(i == 8 || i == 13 || i == 18 || i == 23) implies is_lower_hex(
        #[trigger] t[i],
    ) by {
        let j = uuid_digit_index(i);
        assert(0 <= j < 32);
        let n = nibble(v, j);
        assert(n < 16) by {
            let x = v[j / 2];
            assert((x >> 4) < 16 && (x & 0x0f) < 16);
        }
    }
    let b6 = b[6];
    let b8 = b[8];
    assert((((b6 & 0x0f) | 0x40) >> 4) == 4) by (bit_vector);
    assert(8 <= (((b8 & 0x3f) | 0x80) >> 4) <= 11) by (bit_vector);
    assert(t[14] == hex_digit(v[6] >> 4));
    assert(t[19] == hex_digit(v[8] >> 4));
}

} // verus!
