//! Web addresses: what the `url` crate computes, between plain texts.
use vstd::prelude::*;
use vstd::utf8::encode_utf8;

verus! {

/// What is said of an address that would get too long: the `url` crate keeps positions inside an
/// address in 32 bits.
pub const TOO_LONG: &'static str = "URLs more than 4 GB are not supported";

/// The parts of an address that the service reads.
pub struct AddressParts {
    pub text: Seq<char>,
    pub scheme: Seq<char>,
    pub path: Seq<char>,
    pub query: Option<Seq<char>>,
    pub fragment: Option<Seq<char>>,
    /// The address has no hierarchy, such as `mailto:someone`.
    pub opaque: bool,
}

/// A parsed address.
#[derive(Debug)]
pub struct Address {
    /// The whole address, normalized.
    pub text: String,
    pub scheme: String,
    pub path: String,
    pub query: Option<String>,
    pub fragment: Option<String>,
    /// The address has no hierarchy, such as `mailto:someone`.
    pub opaque: bool,
}

impl View for Address {
    type V = AddressParts;

    open spec fn view(&self) -> AddressParts {
        AddressParts {
            text: self.text@,
            scheme: self.scheme@,
            path: self.path@,
            query: match self.query {
                Some(query) => Some(query@),
                None => None,
            },
            fragment: match self.fragment {
                Some(fragment) => Some(fragment@),
                None => None,
            },
            opaque: self.opaque,
        }
    }
}

/// Names and values of query parameters as texts.
pub open spec fn pair_texts(pairs: Seq<(String, String)>) -> Seq<(Seq<char>, Seq<char>)> {
    pairs.map_values(|pair: (String, String)| (pair.0@, pair.1@))
}

/// How many bytes a text takes.
pub open spec fn byte_length(text: Seq<char>) -> nat {
    encode_utf8(text).len()
}

/// Whether a byte stands for itself in an encoded parameter.
pub open spec fn is_plain_byte(byte: u8) -> bool {
    ||| byte == 0x2a
    ||| byte == 0x2d
    ||| byte == 0x2e
    ||| 0x30 <= byte <= 0x39
    ||| 0x41 <= byte <= 0x5a
    ||| byte == 0x5f
    ||| 0x61 <= byte <= 0x7a
}

/// The hexadecimal digit for a number below sixteen.
pub open spec fn hex_digit(n: u8) -> char {
    if n < 10 {
        (0x30 + n) as char
    } else {
        (0x37 + n) as char
    }
}

/// How a byte is written in an encoded parameter.
pub open spec fn encoded_byte(byte: u8) -> Seq<char> {
    if is_plain_byte(byte) {
        seq![byte as char]
    } else if byte == 0x20 {
        seq!['+']
    } else {
        seq!['%', hex_digit(byte / 16), hex_digit(byte % 16)]
    }
}

/// How bytes are written in an encoded parameter.
pub open spec fn encoded(bytes: Seq<u8>) -> Seq<char>
    decreases bytes.len(),
{
    if bytes.len() == 0 {
        Seq::empty()
    } else {
        encoded(bytes.drop_last()) + encoded_byte(bytes.last())
    }
}

/// Encoded parameters, each with an equals sign between name and value, and an ampersand between
/// each two.
pub open spec fn encoded_pairs(pairs: Seq<(Seq<char>, Seq<char>)>) -> Seq<char>
    decreases pairs.len(),
{
    if pairs.len() == 0 {
        Seq::empty()
    } else {
        let before = if pairs.len() == 1 {
            Seq::empty()
        } else {
            encoded_pairs(pairs.drop_last()).push('&')
        };
        before + encoded(encode_utf8(pairs.last().0)).push('=') + encoded(
            encode_utf8(pairs.last().1),
        )
    }
}

impl AddressParts {
    /// The address without its fragment.
    pub open spec fn head(self) -> Seq<char> {
        match self.fragment {
            Some(fragment) => self.text.take(self.text.len() - fragment.len() - 1),
            None => self.text,
        }
    }

    /// What is added to the query of the address when it takes parameters.
    pub open spec fn addition(self, pairs: Seq<(Seq<char>, Seq<char>)>) -> Seq<char> {
        let sign = match self.query {
            None => seq!['?'],
            Some(query) => if query.len() > 0 && pairs.len() > 0 {
                seq!['&']
            } else {
                Seq::empty()
            },
        };
        sign + encoded_pairs(pairs)
    }

    /// The address with parameters added to its query.
    pub open spec fn with_pairs(self, pairs: Seq<(Seq<char>, Seq<char>)>) -> Seq<char> {
        self.head() + self.addition(pairs) + match self.fragment {
            Some(fragment) => seq!['#'] + fragment,
            None => Seq::empty(),
        }
    }

    /// How many bytes of the address stand before its fragment.
    pub open spec fn head_size(self) -> int {
        match self.fragment {
            Some(fragment) => byte_length(self.text) - byte_length(fragment) - 1,
            None => byte_length(self.text) as int,
        }
    }

    /// Whether the address can take a slash at the end of its path. Where that slash makes up the
    /// whole path of an address without hierarchy, it is written with three characters.
    pub open spec fn has_room_for_slash(self) -> bool {
        slash_fits(byte_length(self.text), self.opaque && self.path.len() == 0)
    }

    /// Whether the address can take the parameters: the places where its query and its fragment
    /// start have to fit in 32 bits.
    pub open spec fn has_room_for(self, pairs: Seq<(Seq<char>, Seq<char>)>) -> bool {
        pairs_fit(
            self.head_size(),
            self.addition(pairs).len() as int,
            self.query is Some,
            self.fragment is Some,
        )
    }
}

/// Whether an address of the given size can take a slash.
pub open spec fn slash_fits(size: nat, escaped: bool) -> bool {
    size + (if escaped {
        3nat
    } else {
        1nat
    }) <= u32::MAX
}

/// Whether an address whose part before the fragment has the given size can take an addition to its
/// query.
pub open spec fn pairs_fit(head: int, addition: int, has_query: bool, has_fragment: bool) -> bool {
    &&& !has_query ==> head <= u32::MAX
    &&& has_fragment ==> head + addition <= u32::MAX
}

/// Tells whether an address of the given size can take a slash.
pub fn room_for_slash(size: u64, escaped: bool) -> (result: bool)
    ensures
        result == slash_fits(size as nat, escaped),
{
    let limit: u64 = u32::MAX as u64;
    if escaped {
        size <= limit - 3
    } else {
        size <= limit - 1
    }
}

/// Tells whether an address can take an addition to its query, given the sizes of the address and of
/// its fragment, where it has one.
pub fn room_for_pairs(size: u64, fragment: Option<u64>, addition: u128, has_query: bool) -> (result:
    bool)
    ensures
        result == match fragment {
            Some(fragment) => pairs_fit(size - fragment - 1, addition as int, has_query, true),
            None => pairs_fit(size as int, addition as int, has_query, false),
        },
{
    let limit: u128 = u32::MAX as u128 + match fragment {
        Some(fragment) => fragment as u128 + 1,
        None => 0,
    };
    if !has_query && size as u128 > limit {
        return false;
    }
    fragment.is_none() || addition.saturating_add(size as u128) <= limit
}

impl Address {
    /// Tells whether the address can take a slash at the end of its path.
    pub fn can_take_slash(&self) -> (result: bool)
        ensures
            result == self@.has_room_for_slash(),
    {
        let escaped = self.opaque && self.path.as_str().is_empty();
        room_for_slash(self.text.as_str().as_bytes().len() as u64, escaped)
    }

    /// Tells whether the address can take the parameters.
    pub fn can_take(&self, pairs: &Vec<(String, String)>) -> (result: bool)
        ensures
            result == self@.has_room_for(pair_texts(pairs@)),
    {
        let ghost texts = pair_texts(pairs@);
        let sign: u128 = match &self.query {
            None => 1,
            Some(query) => if !query.as_str().is_empty() && pairs.len() > 0 {
                1
            } else {
                0
            },
        };
        let mut addition: u128 = sign;
        let mut i: usize = 0;
        assert(encoded_pairs(texts.take(0)).len() == 0);
        while i < pairs.len()
            invariant
                i <= pairs@.len(),
                texts == pair_texts(pairs@),
                sign <= 1,
                addition == capped(sign as nat + encoded_pairs(texts.take(i as int)).len()),
            decreases pairs@.len() - i,
        {
            proof {
                assert(texts.take(i + 1).drop_last() =~= texts.take(i as int));
                assert(texts.take(i + 1).last() == texts[i as int]);
            }
            let name = encoded_size(pairs[i].0.as_str().as_bytes());
            let value = encoded_size(pairs[i].1.as_str().as_bytes());
            let signs: u128 = if i == 0 {
                1
            } else {
                2
            };
            addition = addition.saturating_add(name).saturating_add(value).saturating_add(signs);
            i += 1;
        }
        assert(texts.take(texts.len() as int) =~= texts);
        let fragment: Option<u64> = match &self.fragment {
            Some(fragment) => Some(fragment.as_str().as_bytes().len() as u64),
            None => None,
        };
        room_for_pairs(
            self.text.as_str().as_bytes().len() as u64,
            fragment,
            addition,
            self.query.is_some(),
        )
    }
}

/// A number as far as it fits.
pub open spec fn capped(n: nat) -> u128 {
    if n <= u128::MAX {
        n as u128
    } else {
        u128::MAX
    }
}

/// How many characters bytes take in an encoded parameter, as far as that fits.
fn encoded_size(bytes: &[u8]) -> (size: u128)
    ensures
        size == capped(encoded(bytes@).len()),
{
    let mut size: u128 = 0;
    let mut i: usize = 0;
    while i < bytes.len()
        invariant
            i <= bytes@.len(),
            size == capped(encoded(bytes@.take(i as int)).len()),
        decreases bytes@.len() - i,
    {
        let byte = bytes[i];
        proof {
            assert(bytes@.take(i + 1).drop_last() =~= bytes@.take(i as int));
            assert(bytes@.take(i + 1).last() == byte);
        }
        let short = byte == 0x20 || byte == 0x2a || byte == 0x2d || byte == 0x2e || (0x30 <= byte
            && byte <= 0x39) || (0x41 <= byte && byte <= 0x5a) || byte == 0x5f || (0x61 <= byte
            && byte <= 0x7a);
        size = size.saturating_add(
            if short {
                1
            } else {
                3
            },
        );
        i += 1;
    }
    assert(bytes@.take(bytes@.len() as int) =~= bytes@);
    size
}

/// An address that takes parameters keeps all that stands before its fragment, and the fragment.
pub proof fn parameters_leave_the_rest_alone(
    address: AddressParts,
    pairs: Seq<(Seq<char>, Seq<char>)>,
)
    ensures
        address.head().len() <= address.with_pairs(pairs).len(),
        address.with_pairs(pairs).take(address.head().len() as int) == address.head(),
        address.fragment matches Some(fragment) ==> address.with_pairs(pairs).skip(
            address.with_pairs(pairs).len() - fragment.len(),
        ) == fragment,
{
    assert(address.with_pairs(pairs).take(address.head().len() as int) =~= address.head());
    if address.fragment is Some {
        let fragment = address.fragment->0;
        assert(address.with_pairs(pairs).skip(address.with_pairs(pairs).len() - fragment.len())
            =~= fragment);
    }
}

/// What `url::Url::parse` makes of a text: the parts of the address, or the error's message.
pub uninterp spec fn parsed_address(text: Seq<char>) -> Result<AddressParts, Seq<char>>;

/// The address in `text` after `Url::set_path` with `path`.
pub uninterp spec fn address_with_path(text: Seq<char>, path: Seq<char>) -> Seq<char>;

/// What `Url::join` makes of `path` seen from the address in `text`: the address, or the message
/// of the error, be it about `text` or about `path`.
pub uninterp spec fn joined_address(text: Seq<char>, path: Seq<char>) -> Result<
    Seq<char>,
    Seq<char>,
>;

/// Trusted: `url::Url::parse` depends on the text alone, and an address without query and
/// fragment ends with its path.
#[verifier::external_body]
pub(crate) fn parse_address(text: &str) -> (result: Result<Address, String>)
    ensures
        match result {
            Ok(address) => {
                &&& parsed_address(text@) == Ok::<AddressParts, Seq<char>>(address@)
                &&& address.query is None && address.fragment is None ==> {
                    &&& address.path@.len() <= address.text@.len()
                    &&& address.path@ == address.text@.skip(
                        address.text@.len() - address.path@.len(),
                    )
                }
            },
            Err(message) => parsed_address(text@) == Err::<AddressParts, Seq<char>>(message@),
        },
{
    match url::Url::parse(text) {
        Ok(url) => Ok(
            Address {
                text: url.to_string(),
                scheme: url.scheme().to_owned(),
                path: url.path().to_owned(),
                query: url.query().map(str::to_owned),
                fragment: url.fragment().map(str::to_owned),
                opaque: url.cannot_be_a_base(),
            },
        ),
        Err(error) => Err(error.to_string()),
    }
}

/// Trusted: `Url::set_path` depends on the address and the path alone. Given the address's own path
/// with a slash added, it yields an address that ends in that slash, as long as no query or fragment
/// follows the path. The exception is an address without hierarchy and with an empty path, such as
/// `mailto:`: there the slash is written as `%2F`.
#[verifier::external_body]
pub(crate) fn set_path(text: &str, path: &str) -> (result: String)
    requires
        parsed_address(text@) matches Ok(address) && address.query is None
            && address.fragment is None && address.has_room_for_slash() && path@ == address.path.push('/'),
    ensures
        result@ == address_with_path(text@, path@),
        path@.len() > 1 || !parsed_address(text@)->Ok_0.opaque ==> result@.len() > 0
            && result@.last() == '/',
{
    let mut url = url::Url::parse(text).expect("the address was parsed before");
    url.set_path(path);
    url.to_string()
}

/// Trusted: `form_urlencoded::Serializer::extend_pairs` on `Url::query_pairs_mut` adds the encoded
/// parameters to the query, after a question mark where there was no query and after an ampersand
/// where it was not empty. The rest of the address stays as it was.
#[verifier::external_body]
pub(crate) fn append_pairs(text: &str, pairs: &Vec<(String, String)>) -> (result: String)
    requires
        parsed_address(text@) matches Ok(address) && address.has_room_for(pair_texts(pairs@)),
    ensures
        result@ == parsed_address(text@)->Ok_0.with_pairs(pair_texts(pairs@)),
{
    let mut url = url::Url::parse(text).expect("the address was parsed before");
    url.query_pairs_mut().extend_pairs(pairs);
    url.to_string()
}

/// Trusted: `Url::join` depends on the base address and the path alone.
#[verifier::external_body]
pub(crate) fn join_address(text: &str, path: &str) -> (result: Result<String, String>)
    ensures
        match result {
            Ok(address) => joined_address(text@, path@) == Ok::<Seq<char>, Seq<char>>(address@),
            Err(message) => joined_address(text@, path@) == Err::<Seq<char>, Seq<char>>(message@),
        },
{
    match url::Url::parse(text).and_then(|base| base.join(path)) {
        Ok(url) => Ok(url.to_string()),
        Err(error) => Err(error.to_string()),
    }
}

/// An address has room for a slash exactly if its text stays within 32 bits: with one more byte, or
/// with three where the slash is escaped.
pub proof fn slashes_need_their_room(address: AddressParts)
    ensures
        address.opaque && address.path.len() == 0 ==> (address.has_room_for_slash() <==> encode_utf8(
            address.text,
        ).len() + 3 <= u32::MAX),
        !(address.opaque && address.path.len() == 0) ==> (address.has_room_for_slash()
            <==> encode_utf8(address.text).len() + 1 <= u32::MAX),
{
}

/// An address that is short enough takes any parameters that leave it short enough, and one with a
/// query and without a fragment takes any at all.
pub proof fn short_addresses_take_parameters(
    address: AddressParts,
    pairs: Seq<(Seq<char>, Seq<char>)>,
)
    ensures
        encode_utf8(address.text).len() + address.addition(pairs).len() <= u32::MAX
            ==> address.has_room_for(pairs),
        address.query is Some && address.fragment is None ==> address.has_room_for(pairs),
        address.fragment is None && encode_utf8(address.text).len() <= u32::MAX
            ==> address.has_room_for(pairs),
{
}

/// What a parameter adds to those before it.
pub proof fn parameters_are_added_one_by_one(
    pairs: Seq<(Seq<char>, Seq<char>)>,
    name: Seq<char>,
    value: Seq<char>,
)
    ensures
        encoded_pairs(Seq::empty()).len() == 0,
        pairs.len() == 0 ==> encoded_pairs(pairs.push((name, value))) == encoded(
            encode_utf8(name),
        ) + seq!['='] + encoded(encode_utf8(value)),
        pairs.len() > 0 ==> encoded_pairs(pairs.push((name, value))) == encoded_pairs(pairs)
            + seq!['&'] + encoded(encode_utf8(name)) + seq!['='] + encoded(encode_utf8(value)),
{
    let more = pairs.push((name, value));
    assert(more.drop_last() =~= pairs);
    if pairs.len() == 0 {
        assert(encoded_pairs(more) =~= encoded(encode_utf8(name)) + seq!['='] + encoded(
            encode_utf8(value),
        ));
    } else {
        assert(encoded_pairs(more) =~= encoded_pairs(pairs) + seq!['&'] + encoded(encode_utf8(name))
            + seq!['='] + encoded(encode_utf8(value)));
    }
}

/// Bytes are encoded one by one: letters, digits and four signs as they are, a space as a plus sign,
/// and any other byte as a percent sign with two digits.
pub proof fn bytes_are_encoded_one_by_one(bytes: Seq<u8>, byte: u8)
    ensures
        encoded(Seq::empty()).len() == 0,
        encoded(bytes.push(byte)) == encoded(bytes) + encoded_byte(byte),
        'a' as u8 <= byte <= 'z' as u8 || 'A' as u8 <= byte <= 'Z' as u8 || '0' as u8 <= byte
            <= '9' as u8 || byte == '*' as u8 || byte == '-' as u8 || byte == '.' as u8 || byte
            == '_' as u8 ==> encoded_byte(byte) == seq![byte as char],
        byte == ' ' as u8 ==> encoded_byte(byte) == seq!['+'],
        encoded_byte(byte).len() == 1 || (encoded_byte(byte).len() == 3 && encoded_byte(byte)[0]
            == '%'),
{
    assert(bytes.push(byte).drop_last() =~= bytes);
}

/// An address is seen as its parts.
pub proof fn addresses_are_seen_as_their_parts(address: Address)
    ensures
        address@.text == address.text@,
        address@.scheme == address.scheme@,
        address@.path == address.path@,
        address@.query is Some == address.query is Some,
        address.query matches Some(query) ==> address@.query == Some(query@),
        address@.fragment is Some == address.fragment is Some,
        address.fragment matches Some(fragment) ==> address@.fragment == Some(fragment@),
        address@.opaque == address.opaque,
{
}

/// Pairs of strings are seen as pairs of their texts.
pub proof fn pairs_are_seen_as_their_texts(pairs: Seq<(String, String)>, i: int)
    ensures
        pair_texts(pairs).len() == pairs.len(),
        0 <= i < pairs.len() ==> pair_texts(pairs)[i] == (pairs[i].0@, pairs[i].1@),
{
}

} // verus!
