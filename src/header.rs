use vstd::prelude::*;

verus! {

/// A typed value of the replay header's property table.
pub enum PropValue {
    Array(Vec<Vec<(String, PropValue)>>),
    Bool(bool),
    Byte { kind: String, value: Option<String> },
    Int(i32),
    Name(String),
    QWord(u64),
    Str(String),
    /// Every other shape, read by nothing.
    Other,
}

/// Why a required header field could not be read.
#[derive(PartialEq, Eq, Structural, Clone, Copy, Debug)]
pub enum HeaderError {
    MissingProperty,
    TypeMismatch,
}

/// The value under the first entry of `props` whose key is `key`.
pub open spec fn lookup(props: Seq<(String, PropValue)>, key: Seq<char>) -> Option<PropValue>
    decreases props.len(),
{
    if props.len() == 0 {
        None
    } else if props[0].0@ == key {
        Some(props[0].1)
    } else {
        lookup(props.drop_first(), key)
    }
}

pub open spec fn int_field(props: Seq<(String, PropValue)>, key: Seq<char>) -> Result<i32, HeaderError> {
    match lookup(props, key) {
        None => Err(HeaderError::MissingProperty),
        Some(PropValue::Int(v)) => Ok(v),
        Some(_) => Err(HeaderError::TypeMismatch),
    }
}

pub open spec fn qword_field(props: Seq<(String, PropValue)>, key: Seq<char>) -> Result<u64, HeaderError> {
    match lookup(props, key) {
        None => Err(HeaderError::MissingProperty),
        Some(PropValue::QWord(v)) => Ok(v),
        Some(_) => Err(HeaderError::TypeMismatch),
    }
}

/// A string field: a `Name` or a `Str` value.
pub open spec fn text_field(props: Seq<(String, PropValue)>, key: Seq<char>) -> Result<Seq<char>, HeaderError> {
    match lookup(props, key) {
        None => Err(HeaderError::MissingProperty),
        Some(PropValue::Name(v)) => Ok(v@),
        Some(PropValue::Str(v)) => Ok(v@),
        Some(_) => Err(HeaderError::TypeMismatch),
    }
}

/// The rows of an array field.
pub open spec fn array_field(props: Seq<(String, PropValue)>, key: Seq<char>) -> Result<Vec<Vec<(String, PropValue)>>, HeaderError> {
    match lookup(props, key) {
        None => Err(HeaderError::MissingProperty),
        Some(PropValue::Array(rows)) => Ok(rows),
        Some(_) => Err(HeaderError::TypeMismatch),
    }
}

/// The value of a byte field; any other kind of value reads as no value.
pub open spec fn byte_field(props: Seq<(String, PropValue)>, key: Seq<char>) -> Result<Option<Seq<char>>, HeaderError> {
    match lookup(props, key) {
        None => Err(HeaderError::MissingProperty),
        Some(PropValue::Byte { kind, value }) => Ok(
            match value {
                Some(v) => Some(v@),
                None => None,
            },
        ),
        Some(_) => Ok(None),
    }
}

/// `s` with every occurrence of `pat` taken out, scanning from the left.
pub open spec fn remove_all(s: Seq<char>, pat: Seq<char>) -> Seq<char>
    decreases s.len(),
{
    if s.len() == 0 {
        s
    } else if pat.len() > 0 && pat.len() <= s.len() && s.subrange(0, pat.len() as int) == pat {
        remove_all(s.subrange(pat.len() as int, s.len() as int), pat)
    } else {
        seq![s[0]] + remove_all(s.drop_first(), pat)
    }
}

/// Relies on str::replace with an empty replacement: it takes out the
/// non-overlapping occurrences of `pat` found from the left.
#[verifier::external_body]
fn remove_occurrences(s: &str, pat: &str) -> (r: String)
    requires
        pat@.len() > 0,
    ensures
        r@ == remove_all(s@, pat@),
{
    s.replace(pat, "")
}

/// The platform of a player's stats, without its `OnlinePlatform_` prefix;
/// `Unknown` where the field holds no byte value.
pub open spec fn platform_field(props: Seq<(String, PropValue)>) -> Result<Seq<char>, HeaderError> {
    match byte_field(props, "Platform"@) {
        Err(e) => Err(e),
        Ok(Some(v)) => Ok(remove_all(v, "OnlinePlatform_"@)),
        Ok(None) => Ok(remove_all("Unknown"@, "OnlinePlatform_"@)),
    }
}

/// Looks up the first entry of `props` under `key`.
pub fn get_header_value<'a>(props: &'a Vec<(String, PropValue)>, key: &str) -> (r: Option<&'a PropValue>)
    ensures
        match r {
            Some(v) => lookup(props@, key@) == Some(*v),
            None => lookup(props@, key@) is None,
        },
{
    let wanted = key.to_owned();
    let mut i: usize = 0;
    assert(props@.subrange(0, props@.len() as int) =~= props@);
    while i < props.len()
        invariant
            i <= props@.len(),
            wanted@ == key@,
            lookup(props@, key@) == lookup(props@.subrange(i as int, props@.len() as int), key@),
        decreases props@.len() - i,
    {
        let ghost rest = props@.subrange(i as int, props@.len() as int);
        if props[i].0 == wanted {
            return Some(&props[i].1);
        }
        assert(rest.drop_first() =~= props@.subrange(i + 1, props@.len() as int));
        i = i + 1;
    }
    None
}

/// Reads an integer field.
pub fn get_int(props: &Vec<(String, PropValue)>, key: &str) -> (r: Result<i32, HeaderError>)
    ensures
        r == int_field(props@, key@),
{
    match get_header_value(props, key) {
        None => Err(HeaderError::MissingProperty),
        Some(PropValue::Int(v)) => Ok(*v),
        Some(_) => Err(HeaderError::TypeMismatch),
    }
}

/// Reads a string field.
pub fn get_string(props: &Vec<(String, PropValue)>, key: &str) -> (r: Result<String, HeaderError>)
    ensures
        match r {
            Ok(s) => text_field(props@, key@) == Ok::<Seq<char>, HeaderError>(s@),
            Err(e) => text_field(props@, key@) == Err::<Seq<char>, HeaderError>(e),
        },
{
    match get_header_value(props, key) {
        None => Err(HeaderError::MissingProperty),
        Some(PropValue::Name(v)) => Ok(v.clone()),
        Some(PropValue::Str(v)) => Ok(v.clone()),
        Some(_) => Err(HeaderError::TypeMismatch),
    }
}

/// Reads a 64-bit unsigned field.
pub fn get_int64(props: &Vec<(String, PropValue)>, key: &str) -> (r: Result<u64, HeaderError>)
    ensures
        r == qword_field(props@, key@),
{
    match get_header_value(props, key) {
        None => Err(HeaderError::MissingProperty),
        Some(PropValue::QWord(v)) => Ok(*v),
        Some(_) => Err(HeaderError::TypeMismatch),
    }
}

/// Reads an array field: its rows, each a property table of its own.
pub fn get_array<'a>(props: &'a Vec<(String, PropValue)>, key: &str) -> (r: Result<&'a Vec<Vec<(String, PropValue)>>, HeaderError>)
    ensures
        match r {
            Ok(rows) => array_field(props@, key@) == Ok::<Vec<Vec<(String, PropValue)>>, HeaderError>(*rows),
            Err(e) => array_field(props@, key@) == Err::<Vec<Vec<(String, PropValue)>>, HeaderError>(e),
        },
{
    match get_header_value(props, key) {
        None => Err(HeaderError::MissingProperty),
        Some(PropValue::Array(rows)) => Ok(rows),
        Some(_) => Err(HeaderError::TypeMismatch),
    }
}

/// Reads the value of a byte field; a field of another kind reads as no value.
pub fn get_byte(props: &Vec<(String, PropValue)>, key: &str) -> (r: Result<Option<String>, HeaderError>)
    ensures
        match r {
            Ok(Some(s)) => byte_field(props@, key@) == Ok::<Option<Seq<char>>, HeaderError>(Some(s@)),
            Ok(None) => byte_field(props@, key@) == Ok::<Option<Seq<char>>, HeaderError>(None),
            Err(e) => byte_field(props@, key@) == Err::<Option<Seq<char>>, HeaderError>(e),
        },
{
    match get_header_value(props, key) {
        None => Err(HeaderError::MissingProperty),
        Some(PropValue::Byte { kind: _, value }) => match value {
            Some(v) => Ok(Some(v.clone())),
            None => Ok(None),
        },
        Some(_) => Ok(None),
    }
}

/// Reads a player's platform from their stats.
pub fn get_platform(props: &Vec<(String, PropValue)>) -> (r: Result<String, HeaderError>)
    ensures
        match r {
            Ok(s) => platform_field(props@) == Ok::<Seq<char>, HeaderError>(s@),
            Err(e) => platform_field(props@) == Err::<Seq<char>, HeaderError>(e),
        },
{
    let prefix = "OnlinePlatform_";
    proof {
        reveal_strlit("OnlinePlatform_");
    }
    match get_byte(props, "Platform") {
        Err(e) => Err(e),
        Ok(Some(v)) => Ok(remove_occurrences(v.as_str(), prefix)),
        Ok(None) => Ok(remove_occurrences("Unknown", prefix)),
    }
}

} // verus!
