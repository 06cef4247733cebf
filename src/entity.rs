use vstd::arithmetic::power::pow;
use vstd::prelude::*;

verus! {

/// An entity's identity: the 128-bit value of a UUID. Entities carry no
/// data of their own; they are keys under which components are attached.
#[derive(Clone, Copy, PartialEq, Eq, Structural, Hash, Debug)]
pub struct EntityId {
    pub id: u128,
}

/// The lower-case hexadecimal digits.
pub open spec fn hex_digits() -> Seq<char> {
    seq!['0', '1', '2', '3', '4', '5', '6', '7', '8', '9', 'a', 'b', 'c', 'd', 'e', 'f']
}

/// Positions of the four hyphens in the 36-character text form.
pub open spec fn is_hyphen_position(i: int) -> bool {
    i == 8 || i == 13 || i == 18 || i == 23
}

/// Which of the 32 hexadecimal digits stands at text position `i`.
pub open spec fn digit_index(i: int) -> int {
    if i < 8 {
        i
    } else if i < 13 {
        i - 1
    } else if i < 18 {
        i - 2
    } else if i < 23 {
        i - 3
    } else {
        i - 4
    }
}

/// The `d`-th of the 32 hexadecimal digits of `v`, most significant first.
pub open spec fn nibble(v: u128, d: int) -> int {
    (v as int / pow(16, (31 - d) as nat)) % 16
}

/// The canonical text of an id: its 32 lower-case hexadecimal digits, most
/// significant first, in groups of 8-4-4-4-12 joined by hyphens.
pub open spec fn hyphenated_text(v: u128) -> Seq<char> {
    Seq::new(
        36,
        |i: int|
            if is_hyphen_position(i) {
                '-'
            } else {
                hex_digits()[nibble(v, digit_index(i))]
            },
    )
}

/// What parsing `text` may give: the canonical text of any id parses back
/// to that id. Other texts may parse or be refused.
pub open spec fn parse_outcome(text: Seq<char>, r: Result<EntityId, String>) -> bool {
    forall|v: u128| text == #[trigger] hyphenated_text(v) ==> r == Ok::<EntityId, String>(EntityId { id: v })
}

/// Parsing the canonical text of a value gives that value back.
pub open spec fn parses_back(text: Seq<char>, r: Result<u128, String>) -> bool {
    forall|v: u128| text == #[trigger] hyphenated_text(v) ==> r == Ok::<u128, String>(v)
}

/// What uuid's parser makes of a text: the 128-bit value it reads, or the
/// text of the error it reports. It depends on the text alone.
pub uninterp spec fn uuid_parse(text: Seq<char>) -> Result<u128, Seq<char>>;

/// Relies on uuid::Uuid::new_v4: a random UUID with the version field set to
/// 4 and the variant field set to RFC 4122, read as a 128-bit value. It
/// panics only where the operating system gives no random bytes.
#[verifier::external_body]
fn random_uuid_value() -> (r: u128)
    ensures
        (r >> 76u128) & 0xfu128 == 4,
        (r >> 62u128) & 0x3u128 == 2,
{
    uuid::Uuid::new_v4().as_u128()
}

/// Relies on uuid::Uuid::to_hyphenated and its `Display`: lower-case
/// hexadecimal, hyphens after the 8th, 12th, 16th and 20th digit.
#[verifier::external_body]
fn uuid_text(v: u128) -> (r: String)
    ensures
        r@ == hyphenated_text(v),
{
    uuid::Uuid::from_u128(v).to_hyphenated().to_string()
}

/// Relies on uuid::Uuid::parse_str, which accepts the hyphenated form it
/// writes itself and refuses a malformed text with an error; the error is
/// handed on as its `Display` text.
#[verifier::external_body]
fn parse_uuid_value(input: &str) -> (r: Result<u128, String>)
    ensures
        match r {
            Ok(v) => uuid_parse(input@) == Ok::<u128, Seq<char>>(v),
            Err(m) => uuid_parse(input@) == Err::<u128, Seq<char>>(m@),
        },
        parses_back(input@, r),
{
    match uuid::Uuid::parse_str(input) {
        Ok(u) => Ok(u.as_u128()),
        Err(e) => Err(e.to_string()),
    }
}

impl EntityId {
    /// A fresh random (version 4) id.
    pub fn create() -> (r: Self)
        ensures
            (r.id >> 76u128) & 0xfu128 == 4,
            (r.id >> 62u128) & 0x3u128 == 2,
    {
        EntityId { id: random_uuid_value() }
    }

    pub fn as_string(&self) -> (r: String)
        ensures
            r@ == hyphenated_text(self.id),
    {
        uuid_text(self.id)
    }

    /// Parses an id's text. Text the parser refuses gives its error
    /// message unchanged.
    pub fn parse_str(input: &str) -> (r: Result<Self, String>)
        ensures
            match r {
                Ok(id) => uuid_parse(input@) == Ok::<u128, Seq<char>>(id.id),
                Err(m) => uuid_parse(input@) == Err::<u128, Seq<char>>(m@),
            },
            parse_outcome(input@, r),
    {
        match parse_uuid_value(input) {
            Ok(v) => Ok(EntityId { id: v }),
            Err(e) => Err(e),
        }
    }
}

pub fn entity_id_from_string(id: String) -> (r: Result<Box<EntityId>, String>)
    ensures
        match r {
            Ok(e) => uuid_parse(id@) == Ok::<u128, Seq<char>>(e.id),
            Err(m) => uuid_parse(id@) == Err::<u128, Seq<char>>(m@),
        },
        forall|v: u128|
            id@ == #[trigger] hyphenated_text(v) ==> (r is Ok && *r->Ok_0 == EntityId { id: v }),
{
    match EntityId::parse_str(id.as_str()) {
        Ok(e) => Ok(Box::new(e)),
        Err(err) => Err(err),
    }
}

/// An id's text form parses back to the same id.
pub proof fn lemma_entity_text_round_trip(id: EntityId, r: Result<EntityId, String>)
    requires
        parse_outcome(hyphenated_text(id.id), r),
    ensures
        r == Ok::<EntityId, String>(id),
{
    assert(hyphenated_text(id.id) == hyphenated_text(id.id));
}

} // verus!
