//! Addresses, attachments and the request itself.

use vstd::prelude::*;
use vstd::std_specs::convert::{FromSpecImpl, TryFromSpecImpl};
use vstd::string::*;
use vstd::utf8::*;
use crate::encoding::{
    base64_bytes, base64_text, encode_limit, encode_standard, within_encode_limit,
};
use crate::error::{Error, ErrorModel};
use crate::json::{JsonValue, ParseError, ParseErrorModel};
use crate::text::{
    concat3, contains_char, lemma_split_on_len, lemma_strip_trailing_is_front,
    lemma_trimmed_twice, occurrences,
    same_text, split_on, split_on_char, split_once, split_once_char, strip_trailing,
    strip_trailing_char, trim, trimmed, views_of,
};

verus! {

/// A display name with the address it belongs to.
#[derive(Debug, Clone)]
pub struct EmailNameLegacy {
    pub name: String,
    pub address: String,
}

/// One participant of a mail: a bare address, which may itself be written
/// as `Name <address>`, or a name and an address apart.
#[derive(Debug, Clone)]
pub enum AddressFieldLegacy {
    Address(String),
    NameAndAddress(EmailNameLegacy),
}

/// An [`AddressFieldLegacy`] over sequences of characters.
pub enum AddressModel {
    Address(Seq<char>),
    NameAndAddress { name: Seq<char>, address: Seq<char> },
}

impl View for AddressFieldLegacy {
    type V = AddressModel;

    open spec fn view(&self) -> AddressModel {
        match *self {
            AddressFieldLegacy::Address(a) => AddressModel::Address(a@),
            AddressFieldLegacy::NameAndAddress(n) => AddressModel::NameAndAddress {
                name: n.name@,
                address: n.address@,
            },
        }
    }
}

/// The encoded word that stands for `name` in a header: the base64 text of
/// the UTF-8 bytes of the trimmed name, between `=?UTF-8?B?` and `?=`.
pub open spec fn encoded_word(name: Seq<char>) -> Seq<char> {
    "=?UTF-8?B?"@ + base64_text(encode_utf8(trimmed(name))) + "?="@
}

/// What lies between the ten leading and the two closing characters of an
/// encoded word.
pub open spec fn encoded_word_payload(word: Seq<char>) -> Seq<char> {
    word.subrange(10, word.len() - 2)
}

/// `name <address>`.
pub open spec fn name_and_address(name: Seq<char>, address: Seq<char>) -> Seq<char> {
    name + " <"@ + address + ">"@
}

/// The failure of a field whose name is too long for the encoder.
pub open spec fn too_long_failure() -> ErrorModel {
    ErrorModel::NotASCII("name is too long to encode"@)
}

/// The failure of a collection without a field.
pub open spec fn empty_failure() -> ErrorModel {
    ErrorModel::NotASCII("address list is empty"@)
}

/// Whether the base64 text that stands for `name` in its encoded word
/// decodes to the UTF-8 bytes of the trimmed name.
pub open spec fn name_recoverable(name: Seq<char>) -> bool {
    base64_bytes(encode_utf8(base64_text(encode_utf8(trimmed(name))))) == Some(
        encode_utf8(trimmed(name)),
    )
}

impl AddressModel {
    /// The display name that is encoded on the way to the header-safe
    /// form, where one is: the name in front of the `<` of a bare address
    /// that is not ASCII, or the name of a pair that is not ASCII. No name
    /// is encoded where the field has no header-safe form.
    pub open spec fn encoded_name(self) -> Option<Seq<char>> {
        match self {
            AddressModel::Address(a) => {
                if is_ascii_chars(a) {
                    None
                } else {
                    match split_once(a, '<') {
                        Some((name, rest)) => if is_ascii_chars(rest) {
                            Some(name)
                        } else {
                            None
                        },
                        None => None,
                    }
                }
            },
            AddressModel::NameAndAddress { name, address } => {
                if is_ascii_chars(address) && !is_ascii_chars(name) {
                    Some(name)
                } else {
                    None
                }
            },
        }
    }

    /// Whether the name that is encoded, where one is, is short enough for
    /// the encoder.
    pub open spec fn fits(self) -> bool {
        match self.encoded_name() {
            Some(name) => encode_utf8(trimmed(name)).len() < encode_limit(),
            None => true,
        }
    }

    /// Whether the name that is encoded, where one is, can be read back
    /// from its encoded word.
    pub open spec fn name_decodes_back(self) -> bool {
        match self.encoded_name() {
            Some(name) => name_recoverable(name),
            None => true,
        }
    }

    /// The header-safe form of this field, `too_long_failure` where its
    /// name is too long for the encoder, or why it has none.
    pub open spec fn converted(self) -> Result<Seq<char>, ErrorModel> {
        if self.fits() {
            self.normalized()
        } else {
            Err(too_long_failure())
        }
    }

    /// The header-safe form of this field, or why it has none.
    ///
    /// A bare ASCII address stands for itself. A bare address that is not
    /// ASCII must read `Name <address>` with an ASCII address; its name is
    /// then encoded. Of a pair the address must be ASCII, and the name is
    /// encoded where it is not.
    pub open spec fn normalized(self) -> Result<Seq<char>, ErrorModel> {
        match self {
            AddressModel::Address(a) => {
                if is_ascii_chars(a) {
                    Ok(a)
                } else {
                    match split_once(a, '<') {
                        Some((name, rest)) => {
                            if is_ascii_chars(rest) {
                                Ok(name_and_address(encoded_word(name), strip_trailing(rest, '>')))
                            } else {
                                Err(ErrorModel::NotASCII("address is not ASCII"@))
                            }
                        },
                        None => Err(
                            ErrorModel::NotASCII(
                                "is not ASCII and is not in Name <addr> format"@,
                            ),
                        ),
                    }
                }
            },
            AddressModel::NameAndAddress { name, address } => {
                if !is_ascii_chars(address) {
                    Err(ErrorModel::NotASCII("address field"@))
                } else if is_ascii_chars(name) {
                    Ok(name_and_address(name, address))
                } else {
                    Ok(name_and_address(encoded_word(name), address))
                }
            },
        }
    }
}

/// The encoded word for `name`.
///
/// The payload between the markers is the base64 text of the UTF-8 bytes of
/// the trimmed name, so decoding it gives those bytes back.
pub fn format_utf8(name: &str) -> (word: String)
    requires
        encode_utf8(trimmed(name@)).len() < encode_limit(),
    ensures
        word@ == encoded_word(name@),
        is_ascii_chars(word@),
        encoded_word_payload(word@) == base64_text(encode_utf8(trimmed(name@))),
        base64_bytes(encode_utf8(encoded_word_payload(word@))) == Some(
            encode_utf8(trimmed(name@)),
        ),
{
    let inner = trim(name);
    let payload = encode_standard(inner.as_bytes());
    let word = concat3("=?UTF-8?B?", payload.as_str(), "?=");
    proof {
        reveal_strlit("=?UTF-8?B?");
        reveal_strlit("?=");
        assert(encoded_word_payload(word@) =~= payload@);
    }
    word
}

/// The encoded word for `name`, or nothing where the trimmed name is too
/// long for the encoder.
pub fn try_format_utf8(name: &str) -> (r: Option<String>)
    ensures
        r is Some <==> encode_utf8(trimmed(name@)).len() < encode_limit(),
        r matches Some(word) ==> word@ == encoded_word(name@) && is_ascii_chars(word@)
            && encoded_word_payload(word@) == base64_text(encode_utf8(trimmed(name@)))
            && name_recoverable(name@),
{
    if within_encode_limit(trim(name).as_bytes().len()) {
        Some(format_utf8(name))
    } else {
        None
    }
}

/// White space around a name has no part in its encoded word.
pub proof fn lemma_encoded_word_ignores_outer_white_space(name: Seq<char>)
    ensures
        encoded_word(trimmed(name)) == encoded_word(name),
{
    lemma_trimmed_twice(name);
}

/// A result with its texts as sequences of characters.
pub open spec fn text_result(r: Result<String, Error>) -> Result<Seq<char>, ErrorModel> {
    match r {
        Ok(s) => Ok(s@),
        Err(e) => Err(e@),
    }
}

/// A bare ASCII address is its own header-safe form.
pub proof fn lemma_ascii_address_is_kept(address: Seq<char>)
    requires
        is_ascii_chars(address),
    ensures
        AddressModel::Address(address).normalized() == Ok::<Seq<char>, ErrorModel>(address),
{
}

impl AddressFieldLegacy {
    /// Whether the name that is encoded, where one is, is short enough for
    /// the encoder.
    pub fn fits(&self) -> (b: bool)
        ensures
            b == self@.fits(),
    {
        match self {
            AddressFieldLegacy::Address(addr) => {
                if addr.is_ascii() {
                    true
                } else {
                    match split_once_char(addr.as_str(), '<') {
                        Some((name, rest)) => !rest.is_ascii() || within_encode_limit(
                            trim(name).as_bytes().len(),
                        ),
                        None => true,
                    }
                }
            },
            AddressFieldLegacy::NameAndAddress(pair) => {
                !pair.address.is_ascii() || pair.name.is_ascii() || within_encode_limit(
                    trim(pair.name.as_str()).as_bytes().len(),
                )
            },
        }
    }

    /// The header-safe form of this field, or why it has none.
    ///
    /// A bare ASCII address comes back as it is. Where a name is encoded,
    /// the result begins with its encoded word, and the base64 text in it
    /// decodes to the UTF-8 bytes of the trimmed name.
    pub fn normalized(&self) -> (r: Result<String, Error>)
        requires
            self@.fits(),
        ensures
            text_result(r) == self@.normalized(),
            r matches Ok(s) ==> is_ascii_chars(s@),
            self@ matches AddressModel::Address(a) ==> (is_ascii_chars(a) ==> (r matches Ok(s)
                && s@ == a)),
            self@.encoded_name() matches Some(name) ==> (r matches Ok(s) && s@.subrange(
                0,
                encoded_word(name).len() as int,
            ) == encoded_word(name) && name_recoverable(name)),
            self@.name_decodes_back(),
    {
        match self {
            AddressFieldLegacy::Address(addr) => {
                if addr.is_ascii() {
                    Ok(addr.clone())
                } else {
                    match split_once_char(addr.as_str(), '<') {
                        Some((name, rest)) => {
                            if rest.is_ascii() {
                                let word = format_utf8(name);
                                let tail = strip_trailing_char(rest, '>');
                                proof {
                                    lemma_strip_trailing_is_front(rest@, '>');
                                }
                                let joined = join_name_and_address(word.as_str(), tail);
                                assert(joined@.subrange(0, word@.len() as int) =~= word@);
                                Ok(joined)
                            } else {
                                Err(Error::NotASCII(String::from_str("address is not ASCII")))
                            }
                        },
                        None => Err(
                            Error::NotASCII(
                                String::from_str("is not ASCII and is not in Name <addr> format"),
                            ),
                        ),
                    }
                }
            },
            AddressFieldLegacy::NameAndAddress(pair) => {
                if !pair.address.is_ascii() {
                    Err(Error::NotASCII(String::from_str("address field")))
                } else if pair.name.is_ascii() {
                    Ok(join_name_and_address(pair.name.as_str(), pair.address.as_str()))
                } else {
                    let word = format_utf8(pair.name.as_str());
                    let joined = join_name_and_address(word.as_str(), pair.address.as_str());
                    assert(joined@.subrange(0, word@.len() as int) =~= word@);
                    Ok(joined)
                }
            },
        }
    }

    /// Whether this field has a header-safe form. Nothing is encoded to
    /// find that out.
    pub fn is_valid(&self) -> (b: bool)
        ensures
            b == (self@.normalized() is Ok),
    {
        match self {
            AddressFieldLegacy::Address(addr) => {
                if addr.is_ascii() {
                    true
                } else {
                    match split_once_char(addr.as_str(), '<') {
                        Some((name, rest)) => rest.is_ascii(),
                        None => false,
                    }
                }
            },
            AddressFieldLegacy::NameAndAddress(pair) => pair.address.is_ascii(),
        }
    }

    /// The header-safe form of this field; a failure where its name is too
    /// long for the encoder, or where it has no such form.
    pub fn try_normalized(&self) -> (r: Result<String, Error>)
        ensures
            text_result(r) == self@.converted(),
            r matches Ok(s) ==> is_ascii_chars(s@) && self@.name_decodes_back(),
            self@ matches AddressModel::Address(a) ==> (is_ascii_chars(a) ==> (r matches Ok(s)
                && s@ == a)),
    {
        if self.fits() {
            self.normalized()
        } else {
            Err(Error::NotASCII(String::from_str("name is too long to encode")))
        }
    }
}

/// What `try_from` returns is stated on `try_from` itself, over the
/// characters of the result; no `String` is named here.
impl<'a> TryFromSpecImpl<&'a AddressFieldLegacy> for String {
    open spec fn obeys_try_from_spec() -> bool {
        false
    }

    open spec fn try_from_spec(value: &'a AddressFieldLegacy) -> Result<String, Error> {
        arbitrary()
    }
}

impl<'a> TryFrom<&'a AddressFieldLegacy> for String {
    type Error = Error;

    /// The header-safe form of the field; a failure where its name is too
    /// long for the encoder, or where it has no such form. A bare ASCII
    /// address comes back as it is.
    fn try_from(value: &'a AddressFieldLegacy) -> (r: Result<String, Error>)
        ensures
            text_result(r) == value@.converted(),
            r matches Ok(s) ==> is_ascii_chars(s@) && value@.name_decodes_back(),
            value@ matches AddressModel::Address(a) ==> (is_ascii_chars(a) ==> (r matches Ok(s)
                && s@ == a)),
    {
        value.try_normalized()
    }
}

impl TryFromSpecImpl<AddressFieldLegacy> for String {
    open spec fn obeys_try_from_spec() -> bool {
        false
    }

    open spec fn try_from_spec(value: AddressFieldLegacy) -> Result<String, Error> {
        arbitrary()
    }
}

impl TryFrom<AddressFieldLegacy> for String {
    type Error = Error;

    /// As for a reference to the field.
    fn try_from(value: AddressFieldLegacy) -> (r: Result<String, Error>)
        ensures
            text_result(r) == value@.converted(),
            r matches Ok(s) ==> is_ascii_chars(s@) && value@.name_decodes_back(),
            value@ matches AddressModel::Address(a) ==> (is_ascii_chars(a) ==> (r matches Ok(s)
                && s@ == a)),
    {
        value.try_normalized()
    }
}

/// `name <address>`.
pub fn join_name_and_address(name: &str, address: &str) -> (r: String)
    ensures
        r@ == name_and_address(name@, address@),
        is_ascii_chars(name@) && is_ascii_chars(address@) ==> is_ascii_chars(r@),
{
    let mut r = String::from_str(name);
    r.append(" <");
    r.append(address);
    r.append(">");
    proof {
        reveal_strlit(" <");
        reveal_strlit(">");
    }
    r
}

/// One address field, or several in order.
#[derive(Debug, Clone)]
pub enum AddressFieldsLegacy {
    AddressField(AddressFieldLegacy),
    AddressList(Vec<AddressFieldLegacy>),
}

/// An [`AddressFieldsLegacy`] over sequences of characters.
pub enum AddressesModel {
    Single(AddressModel),
    List(Seq<AddressModel>),
}

/// The models of `fields`, in order.
pub open spec fn models_of(fields: Seq<AddressFieldLegacy>) -> Seq<AddressModel> {
    Seq::new(fields.len(), |i: int| fields[i]@)
}

impl View for AddressFieldsLegacy {
    type V = AddressesModel;

    open spec fn view(&self) -> AddressesModel {
        match *self {
            AddressFieldsLegacy::AddressField(a) => AddressesModel::Single(a@),
            AddressFieldsLegacy::AddressList(v) => AddressesModel::List(models_of(v@)),
        }
    }
}

/// Index of the first field at or after `from` that has no header-safe
/// form, or `fields.len()` when there is none.
pub open spec fn first_invalid(fields: Seq<AddressModel>, from: int) -> int
    decreases fields.len() - from,
{
    if from < 0 || from >= fields.len() {
        fields.len() as int
    } else if fields[from].normalized() is Err {
        from
    } else {
        first_invalid(fields, from + 1)
    }
}

/// Valid fields in `fields[from..k]` and an invalid one at `k`, or the end
/// there, fixes `first_invalid`.
pub proof fn lemma_first_invalid_at(fields: Seq<AddressModel>, from: int, k: int)
    requires
        0 <= from <= k <= fields.len(),
        forall|j: int| from <= j < k ==> (#[trigger] fields[j]).normalized() is Ok,
        k < fields.len() ==> fields[k].normalized() is Err,
    ensures
        first_invalid(fields, from) == k,
    decreases k - from,
{
    if from < k {
        lemma_first_invalid_at(fields, from + 1, k);
    }
}

/// The header-safe forms of `fields`, in order, or the failure of the first
/// field that has none. No fields at all is a failure too: what comes out
/// is never empty.
pub open spec fn normalized_all(fields: Seq<AddressModel>) -> Result<Seq<Seq<char>>, ErrorModel> {
    let k = first_invalid(fields, 0);
    if fields.len() == 0 {
        Err(empty_failure())
    } else if 0 <= k < fields.len() {
        Err(fields[k].normalized()->Err_0)
    } else {
        Ok(Seq::new(fields.len(), |i: int| fields[i].normalized()->Ok_0))
    }
}

/// Whether every field is short enough for the encoder.
pub open spec fn all_fit_spec(fields: Seq<AddressModel>) -> bool {
    forall|i: int| 0 <= i < fields.len() ==> (#[trigger] fields[i]).fits()
}

/// Whether every encoded name can be read back from its encoded word.
pub open spec fn all_decode_back(fields: Seq<AddressModel>) -> bool {
    forall|i: int| 0 <= i < fields.len() ==> (#[trigger] fields[i]).name_decodes_back()
}

/// The texts of `v`, in order.
pub open spec fn texts_of(v: Seq<String>) -> Seq<Seq<char>> {
    Seq::new(v.len(), |i: int| v[i]@)
}

/// A result with its texts as sequences of characters.
pub open spec fn texts_result(r: Result<Vec<String>, Error>) -> Result<Seq<Seq<char>>, ErrorModel> {
    match r {
        Ok(v) => Ok(texts_of(v@)),
        Err(e) => Err(e@),
    }
}

/// A result with its text, if any, as a sequence of characters.
pub open spec fn optional_text_result(r: Result<Option<String>, Error>) -> Result<
    Option<Seq<char>>,
    ErrorModel,
> {
    match r {
        Ok(Some(s)) => Ok(Some(s@)),
        Ok(None) => Ok(None),
        Err(e) => Err(e@),
    }
}

impl AddressesModel {
    /// The fields of the collection, in order.
    pub open spec fn fields(self) -> Seq<AddressModel> {
        match self {
            AddressesModel::Single(a) => seq![a],
            AddressesModel::List(v) => v,
        }
    }

    /// Whether every field is short enough for the encoder.
    pub open spec fn fits(self) -> bool {
        all_fit_spec(self.fields())
    }

    /// The header-safe forms of all fields, in order, or the failure of the
    /// first field that has none. A collection without a field fails.
    pub open spec fn normalized(self) -> Result<Seq<Seq<char>>, ErrorModel> {
        normalized_all(self.fields())
    }

    /// The header-safe forms of all fields, `too_long_failure` where a name
    /// is too long for the encoder, or why there are none.
    pub open spec fn converted(self) -> Result<Seq<Seq<char>>, ErrorModel> {
        if self.fits() {
            self.normalized()
        } else {
            Err(too_long_failure())
        }
    }

    /// The header-safe form of the first field. A collection without a
    /// field fails.
    pub open spec fn first_normalized(self) -> Result<Seq<char>, ErrorModel> {
        if self.fields().len() == 0 {
            Err(empty_failure())
        } else {
            self.fields()[0].normalized()
        }
    }
}

/// The header-safe forms of `fields`, in order, or the failure of the first
/// field that has none. No fields at all is a failure too, so what comes
/// out holds at least one address.
pub fn normalize_all(fields: &Vec<AddressFieldLegacy>) -> (r: Result<Vec<String>, Error>)
    requires
        all_fit_spec(models_of(fields@)),
    ensures
        texts_result(r) == normalized_all(models_of(fields@)),
        r matches Ok(v) ==> v@.len() >= 1 && v@.len() == fields@.len() && forall|i: int|
            0 <= i < v@.len() ==> is_ascii_chars(#[trigger] v@[i]@),
        r is Ok ==> all_decode_back(models_of(fields@)),
{
    let ghost models = models_of(fields@);
    if fields.len() == 0 {
        return Err(Error::NotASCII(String::from_str("address list is empty")));
    }
    let mut out: Vec<String> = Vec::new();
    let mut i: usize = 0;
    while i < fields.len()
        invariant
            i <= fields.len(),
            fields.len() > 0,
            models == models_of(fields@),
            out@.len() == i,
            all_fit_spec(models),
            forall|j: int| 0 <= j < i ==> (#[trigger] models[j]).normalized() == Ok::<
                Seq<char>,
                ErrorModel,
            >(out@[j]@),
            forall|j: int| 0 <= j < i ==> is_ascii_chars(#[trigger] out@[j]@),
            forall|j: int| 0 <= j < i ==> (#[trigger] models[j]).name_decodes_back(),
        decreases fields.len() - i,
    {
        assert(models[i as int] == fields@[i as int]@);
        assert(models[i as int].fits());
        match fields[i].normalized() {
            Ok(s) => {
                out.push(s);
            },
            Err(e) => {
                proof {
                    lemma_first_invalid_at(models, 0, i as int);
                }
                return Err(e);
            },
        }
        i = i + 1;
    }
    proof {
        lemma_first_invalid_at(models, 0, i as int);
        assert(texts_of(out@) =~= Seq::new(
            models.len(),
            |k: int| models[k].normalized()->Ok_0,
        ));
    }
    Ok(out)
}

/// The place, counted from zero, of the first field that has no
/// header-safe form; the number of fields where each has one.
pub fn first_invalid_field(fields: &Vec<AddressFieldLegacy>) -> (k: usize)
    ensures
        k == first_invalid(models_of(fields@), 0),
        k <= fields@.len(),
{
    let ghost models = models_of(fields@);
    let mut i: usize = 0;
    while i < fields.len()
        invariant
            i <= fields.len(),
            models == models_of(fields@),
            forall|j: int| 0 <= j < i ==> (#[trigger] models[j]).normalized() is Ok,
        decreases fields.len() - i,
    {
        assert(models[i as int] == fields@[i as int]@);
        if !fields[i].is_valid() {
            proof {
                lemma_first_invalid_at(models, 0, i as int);
            }
            return i;
        }
        i = i + 1;
    }
    proof {
        lemma_first_invalid_at(models, 0, i as int);
    }
    i
}

/// Whether every field is short enough for the encoder.
pub fn all_fit(fields: &Vec<AddressFieldLegacy>) -> (b: bool)
    ensures
        b == all_fit_spec(models_of(fields@)),
{
    let ghost models = models_of(fields@);
    let mut i: usize = 0;
    while i < fields.len()
        invariant
            i <= fields.len(),
            models == models_of(fields@),
            forall|j: int| 0 <= j < i ==> (#[trigger] models[j]).fits(),
        decreases fields.len() - i,
    {
        assert(models[i as int] == fields@[i as int]@);
        if !fields[i].fits() {
            return false;
        }
        i = i + 1;
    }
    true
}

impl AddressFieldsLegacy {
    /// Whether every field is short enough for the encoder.
    pub fn fits(&self) -> (b: bool)
        ensures
            b == self@.fits(),
    {
        match self {
            AddressFieldsLegacy::AddressField(a) => {
                let b = a.fits();
                assert(self@.fields()[0] == a@);
                b
            },
            AddressFieldsLegacy::AddressList(v) => all_fit(v),
        }
    }

    /// The header-safe forms of all fields, in order, or the failure of the
    /// first field that has none. Nothing is returned for a part of the
    /// fields, and a collection without a field fails: what comes out holds
    /// at least one address.
    pub fn normalized(&self) -> (r: Result<Vec<String>, Error>)
        requires
            self@.fits(),
        ensures
            texts_result(r) == self@.normalized(),
            r matches Ok(v) ==> v@.len() >= 1 && v@.len() == self@.fields().len() && forall|i: int|
                0 <= i < v@.len() ==> is_ascii_chars(#[trigger] v@[i]@),
            r is Ok ==> all_decode_back(self@.fields()),
    {
        match self {
            AddressFieldsLegacy::AddressField(a) => {
                let ghost fields = self@.fields();
                assert(fields[0] == a@);
                match a.normalized() {
                    Ok(s) => {
                        let mut out: Vec<String> = Vec::new();
                        out.push(s);
                        proof {
                            lemma_first_invalid_at(fields, 0, 1);
                            assert(texts_of(out@) =~= Seq::new(
                                fields.len(),
                                |k: int| fields[k].normalized()->Ok_0,
                            ));
                        }
                        Ok(out)
                    },
                    Err(e) => {
                        proof {
                            lemma_first_invalid_at(fields, 0, 0);
                        }
                        Err(e)
                    },
                }
            },
            AddressFieldsLegacy::AddressList(v) => normalize_all(v),
        }
    }

    /// The place, counted from zero, of the first field that has no
    /// header-safe form; the number of fields where each has one. It says
    /// which field the failure of [`Self::normalized`] is about.
    pub fn first_invalid_index(&self) -> (k: usize)
        ensures
            k == first_invalid(self@.fields(), 0),
            k <= self@.fields().len(),
            self@.fields().len() > 0 ==> (k < self@.fields().len() <==> self@.normalized()
                is Err),
            k < self@.fields().len() ==> self@.normalized() == Err::<Seq<Seq<char>>, ErrorModel>(
                self@.fields()[k as int].normalized()->Err_0,
            ),
    {
        match self {
            AddressFieldsLegacy::AddressField(a) => {
                let ghost fields = self@.fields();
                assert(fields[0] == a@);
                if a.is_valid() {
                    proof {
                        lemma_first_invalid_at(fields, 0, 1);
                    }
                    1
                } else {
                    proof {
                        lemma_first_invalid_at(fields, 0, 0);
                    }
                    0
                }
            },
            AddressFieldsLegacy::AddressList(v) => first_invalid_field(v),
        }
    }

    /// The header-safe forms of all fields; a failure where a name is too
    /// long for the encoder, or where there are no such forms.
    pub fn try_normalized(&self) -> (r: Result<Vec<String>, Error>)
        ensures
            texts_result(r) == self@.converted(),
            r matches Ok(v) ==> v@.len() >= 1 && v@.len() == self@.fields().len() && forall|i: int|
                0 <= i < v@.len() ==> is_ascii_chars(#[trigger] v@[i]@),
            r is Ok ==> all_decode_back(self@.fields()),
    {
        if self.fits() {
            self.normalized()
        } else {
            Err(Error::NotASCII(String::from_str("name is too long to encode")))
        }
    }

    /// The header-safe form of the first field. Further fields are not
    /// looked at; a collection without a field fails.
    pub fn first_normalized(&self) -> (r: Result<String, Error>)
        requires
            self@.fits(),
        ensures
            text_result(r) == self@.first_normalized(),
            r matches Ok(s) ==> is_ascii_chars(s@),
    {
        match self {
            AddressFieldsLegacy::AddressField(a) => {
                assert(self@.fields()[0] == a@);
                a.normalized()
            },
            AddressFieldsLegacy::AddressList(v) => {
                if v.len() == 0 {
                    Err(Error::NotASCII(String::from_str("address list is empty")))
                } else {
                    assert(self@.fields()[0] == v@[0]@);
                    v[0].normalized()
                }
            },
        }
    }
}

/// What `try_from` returns is stated on `try_from` itself, over the
/// characters of the result; no `Vec` is named here.
impl<'a> TryFromSpecImpl<&'a AddressFieldsLegacy> for Vec<String> {
    open spec fn obeys_try_from_spec() -> bool {
        false
    }

    open spec fn try_from_spec(value: &'a AddressFieldsLegacy) -> Result<Vec<String>, Error> {
        arbitrary()
    }
}

impl<'a> TryFrom<&'a AddressFieldsLegacy> for Vec<String> {
    type Error = Error;

    /// The header-safe forms of all fields, in order and at least one; a
    /// failure where a name is too long for the encoder, where a field has
    /// no such form, or where there is no field.
    fn try_from(value: &'a AddressFieldsLegacy) -> (r: Result<Vec<String>, Error>)
        ensures
            texts_result(r) == value@.converted(),
            r matches Ok(v) ==> v@.len() >= 1 && v@.len() == value@.fields().len()
                && forall|i: int| 0 <= i < v@.len() ==> is_ascii_chars(#[trigger] v@[i]@),
            r is Ok ==> all_decode_back(value@.fields()),
    {
        value.try_normalized()
    }
}

impl TryFromSpecImpl<AddressFieldsLegacy> for Vec<String> {
    open spec fn obeys_try_from_spec() -> bool {
        false
    }

    open spec fn try_from_spec(value: AddressFieldsLegacy) -> Result<Vec<String>, Error> {
        arbitrary()
    }
}

impl TryFrom<AddressFieldsLegacy> for Vec<String> {
    type Error = Error;

    /// As for a reference to the collection.
    fn try_from(value: AddressFieldsLegacy) -> (r: Result<Vec<String>, Error>)
        ensures
            texts_result(r) == value@.converted(),
            r matches Ok(v) ==> v@.len() >= 1 && v@.len() == value@.fields().len()
                && forall|i: int| 0 <= i < v@.len() ==> is_ascii_chars(#[trigger] v@[i]@),
            r is Ok ==> all_decode_back(value@.fields()),
    {
        value.try_normalized()
    }
}

/// The field that a JSON value stands for: a string is a bare address, an
/// object gives name and address as strings.
pub open spec fn parse_address(value: JsonValue) -> Result<AddressModel, ParseErrorModel> {
    match value {
        JsonValue::Text(s) => Ok(AddressModel::Address(s@)),
        JsonValue::Object(_) => match value.text_member("name"@) {
            None => Err(ParseErrorModel::MissingField("name"@)),
            Some(name) => match value.text_member("address"@) {
                None => Err(ParseErrorModel::MissingField("address"@)),
                Some(address) => Ok(AddressModel::NameAndAddress { name, address }),
            },
        },
        _ => Err(ParseErrorModel::Custom("expected string or object"@)),
    }
}

/// The bare addresses that a comma-separated text lists: its segments, each
/// trimmed, in order.
pub open spec fn comma_separated(s: Seq<char>) -> Seq<AddressModel> {
    Seq::new(split_on(s, ',').len(), |i: int| AddressModel::Address(trimmed(split_on(s, ',')[i])))
}

/// Index of the first element at or after `from` that stands for no field,
/// or `items.len()` when there is none.
pub open spec fn first_unparsed(items: Seq<JsonValue>, from: int) -> int
    decreases items.len() - from,
{
    if from < 0 || from >= items.len() {
        items.len() as int
    } else if parse_address(items[from]) is Err {
        from
    } else {
        first_unparsed(items, from + 1)
    }
}

/// Fields in `items[from..k]` and none at `k`, or the end there, fixes
/// `first_unparsed`.
pub proof fn lemma_first_unparsed_at(items: Seq<JsonValue>, from: int, k: int)
    requires
        0 <= from <= k <= items.len(),
        forall|j: int| from <= j < k ==> parse_address(#[trigger] items[j]) is Ok,
        k < items.len() ==> parse_address(items[k]) is Err,
    ensures
        first_unparsed(items, from) == k,
    decreases k - from,
{
    if from < k {
        lemma_first_unparsed_at(items, from + 1, k);
    }
}

/// The collection that a JSON value stands for.
///
/// A string with a comma is a list of bare addresses, one per segment; any
/// other string is one bare address. An object is one field. An array is a
/// list of its elements' fields and fails with the first element that
/// stands for none.
pub open spec fn parse_addresses(value: JsonValue) -> Result<AddressesModel, ParseErrorModel> {
    match value {
        JsonValue::Text(s) => {
            if s@.contains(',') {
                Ok(AddressesModel::List(comma_separated(s@)))
            } else {
                Ok(AddressesModel::Single(AddressModel::Address(s@)))
            }
        },
        JsonValue::Object(_) => match parse_address(value) {
            Ok(a) => Ok(AddressesModel::Single(a)),
            Err(e) => Err(e.nested()),
        },
        JsonValue::List(items) => {
            let k = first_unparsed(items@, 0);
            if 0 <= k < items@.len() {
                Err(parse_address(items@[k])->Err_0.nested())
            } else {
                Ok(
                    AddressesModel::List(
                        Seq::new(items@.len(), |i: int| parse_address(items@[i])->Ok_0),
                    ),
                )
            }
        },
        _ => Err(ParseErrorModel::Custom("expected string, object, or array"@)),
    }
}

/// A comma-separated text lists one address per segment, which is one more
/// than it has commas, each the trimmed segment at the same place; and
/// where all of them have a header-safe form, these forms come out in the
/// same number and order.
pub proof fn lemma_comma_separated_keeps_count_and_order(s: Seq<char>)
    ensures
        comma_separated(s).len() == occurrences(s, ',') + 1,
        forall|i: int|
            0 <= i < comma_separated(s).len() ==> #[trigger] comma_separated(s)[i]
                == AddressModel::Address(trimmed(split_on(s, ',')[i])),
        normalized_all(comma_separated(s)) matches Ok(out) ==> out.len() == occurrences(s, ',')
            + 1 && forall|i: int|
            0 <= i < out.len() ==> comma_separated(s)[i].normalized() == Ok::<
                Seq<char>,
                ErrorModel,
            >(#[trigger] out[i]),
{
    lemma_split_on_len(s, ',');
    let fields = comma_separated(s);
    if normalized_all(fields) is Ok {
        let out = normalized_all(fields)->Ok_0;
        assert forall|i: int| 0 <= i < out.len() implies fields[i].normalized() == Ok::<
            Seq<char>,
            ErrorModel,
        >(#[trigger] out[i]) by {
            lemma_all_valid(fields, 0, i);
        }
    }
}

/// Where a collection has a field and every field converts, the collection
/// converts to the forms of its fields, in their number and order.
pub proof fn lemma_fields_convert_in_order(collection: AddressesModel)
    requires
        collection.fields().len() >= 1,
        forall|i: int|
            0 <= i < collection.fields().len() ==> (#[trigger] collection.fields()[i]).converted()
                is Ok,
    ensures
        collection.converted() matches Ok(out) && out.len() == collection.fields().len()
            && forall|i: int|
            0 <= i < out.len() ==> collection.fields()[i].converted() == Ok::<
                Seq<char>,
                ErrorModel,
            >(#[trigger] out[i]),
{
    let fields = collection.fields();
    assert forall|i: int| 0 <= i < fields.len() implies (#[trigger] fields[i]).fits()
        && fields[i].normalized() is Ok by {
        assert(fields[i].converted() is Ok);
    }
    lemma_first_invalid_at(fields, 0, fields.len() as int);
}

/// With no invalid field from `from` on, the field at `i` is valid.
pub proof fn lemma_all_valid(fields: Seq<AddressModel>, from: int, i: int)
    requires
        0 <= from <= i < fields.len(),
        !(0 <= first_invalid(fields, from) < fields.len()),
    ensures
        fields[i].normalized() is Ok,
    decreases i - from,
{
    if from < i {
        lemma_all_valid(fields, from + 1, i);
    }
}

/// A parsed field with its texts as sequences of characters.
pub open spec fn address_result(r: Result<AddressFieldLegacy, ParseError>) -> Result<
    AddressModel,
    ParseErrorModel,
> {
    match r {
        Ok(a) => Ok(a@),
        Err(e) => Err(e@),
    }
}

/// A parsed collection with its texts as sequences of characters.
pub open spec fn addresses_result(r: Result<AddressFieldsLegacy, ParseError>) -> Result<
    AddressesModel,
    ParseErrorModel,
> {
    match r {
        Ok(a) => Ok(a@),
        Err(e) => Err(e@),
    }
}

impl AddressFieldLegacy {
    /// Reads a field out of a JSON value.
    pub fn from_json(value: &JsonValue) -> (r: Result<AddressFieldLegacy, ParseError>)
        ensures
            address_result(r) == parse_address(*value),
    {
        match value {
            JsonValue::Text(s) => Ok(AddressFieldLegacy::Address(s.clone())),
            JsonValue::Object(_) => {
                match value.get_text("name") {
                    None => Err(ParseError::MissingField(String::from_str("name"))),
                    Some(name) => match value.get_text("address") {
                        None => Err(ParseError::MissingField(String::from_str("address"))),
                        Some(address) => Ok(
                            AddressFieldLegacy::NameAndAddress(
                                EmailNameLegacy { name: name.clone(), address: address.clone() },
                            ),
                        ),
                    },
                }
            },
            _ => Err(ParseError::Custom(String::from_str("expected string or object"))),
        }
    }
}

/// The bare addresses that a comma-separated text lists.
pub fn split_addresses(s: &str) -> (list: Vec<AddressFieldLegacy>)
    ensures
        models_of(list@) == comma_separated(s@),
{
    let parts = split_on_char(s, ',');
    let mut list: Vec<AddressFieldLegacy> = Vec::new();
    let mut i: usize = 0;
    while i < parts.len()
        invariant
            i <= parts.len(),
            list@.len() == i,
            views_of(parts@) == split_on(s@, ','),
            forall|j: int|
                0 <= j < i ==> (#[trigger] list@[j])@ == AddressModel::Address(
                    trimmed(split_on(s@, ',')[j]),
                ),
        decreases parts.len() - i,
    {
        assert(views_of(parts@)[i as int] == parts@[i as int]@);
        let piece = trim(parts[i]);
        list.push(AddressFieldLegacy::Address(String::from_str(piece)));
        i = i + 1;
    }
    assert(views_of(parts@).len() == parts@.len());
    assert(models_of(list@) =~= comma_separated(s@));
    list
}

/// The fields that the elements of an array stand for, or the failure of
/// the first element that stands for none.
pub fn parse_list(items: &Vec<JsonValue>) -> (r: Result<Vec<AddressFieldLegacy>, ParseError>)
    ensures
        match r {
            Ok(list) => first_unparsed(items@, 0) == items@.len() && models_of(list@) == Seq::new(
                items@.len(),
                |i: int| parse_address(items@[i])->Ok_0,
            ),
            Err(e) => 0 <= first_unparsed(items@, 0) < items@.len() && e@ == parse_address(
                items@[first_unparsed(items@, 0)],
            )->Err_0.nested(),
        },
{
    let mut list: Vec<AddressFieldLegacy> = Vec::new();
    let mut i: usize = 0;
    while i < items.len()
        invariant
            i <= items.len(),
            list@.len() == i,
            forall|j: int|
                0 <= j < i ==> parse_address(#[trigger] items@[j]) == Ok::<
                    AddressModel,
                    ParseErrorModel,
                >(list@[j]@),
        decreases items.len() - i,
    {
        match AddressFieldLegacy::from_json(&items[i]) {
            Ok(a) => {
                list.push(a);
            },
            Err(e) => {
                proof {
                    lemma_first_unparsed_at(items@, 0, i as int);
                }
                return Err(e.into_nested());
            },
        }
        i = i + 1;
    }
    proof {
        lemma_first_unparsed_at(items@, 0, i as int);
        assert(models_of(list@) =~= Seq::new(
            items@.len(),
            |k: int| parse_address(items@[k])->Ok_0,
        ));
    }
    Ok(list)
}

impl AddressFieldsLegacy {
    /// Reads a collection out of a JSON value.
    pub fn from_json(value: &JsonValue) -> (r: Result<AddressFieldsLegacy, ParseError>)
        ensures
            addresses_result(r) == parse_addresses(*value),
    {
        match value {
            JsonValue::Text(s) => {
                if contains_char(s.as_str(), ',') {
                    Ok(AddressFieldsLegacy::AddressList(split_addresses(s.as_str())))
                } else {
                    Ok(AddressFieldsLegacy::AddressField(AddressFieldLegacy::Address(s.clone())))
                }
            },
            JsonValue::Object(_) => match AddressFieldLegacy::from_json(value) {
                Ok(a) => Ok(AddressFieldsLegacy::AddressField(a)),
                Err(e) => Err(e.into_nested()),
            },
            JsonValue::List(items) => match parse_list(items) {
                Ok(list) => Ok(AddressFieldsLegacy::AddressList(list)),
                Err(e) => Err(e),
            },
            _ => Err(ParseError::Custom(String::from_str("expected string, object, or array"))),
        }
    }
}

/// Which template, if any, the body is rendered through.
#[derive(Debug, Clone, Copy, PartialEq, Eq, Structural, Hash)]
pub enum EmailTemplateTypeLegacy {
    Default,
    Metaspexet,
    /// No template: the body goes out as it is. Requested as `none`.
    Plain,
}

impl Default for EmailTemplateTypeLegacy {
    fn default() -> (template: EmailTemplateTypeLegacy)
        ensures
            template == EmailTemplateTypeLegacy::Default,
    {
        EmailTemplateTypeLegacy::Default
    }
}

impl EmailTemplateTypeLegacy {
    /// The name under which the template is requested and registered.
    pub open spec fn name(self) -> Seq<char> {
        match self {
            EmailTemplateTypeLegacy::Default => "default"@,
            EmailTemplateTypeLegacy::Metaspexet => "metaspexet"@,
            EmailTemplateTypeLegacy::Plain => "none"@,
        }
    }

    /// The template that goes by `name`.
    pub open spec fn named(name: Seq<char>) -> Option<EmailTemplateTypeLegacy> {
        if name == "default"@ {
            Some(EmailTemplateTypeLegacy::Default)
        } else if name == "metaspexet"@ {
            Some(EmailTemplateTypeLegacy::Metaspexet)
        } else if name == "none"@ {
            Some(EmailTemplateTypeLegacy::Plain)
        } else {
            None
        }
    }

    /// The name under which the template is requested and registered.
    pub fn as_str(&self) -> (name: &'static str)
        ensures
            name@ == self.name(),
    {
        match self {
            EmailTemplateTypeLegacy::Default => "default",
            EmailTemplateTypeLegacy::Metaspexet => "metaspexet",
            EmailTemplateTypeLegacy::Plain => "none",
        }
    }

    /// The name under which the template is requested and registered.
    pub fn to_string(&self) -> (name: String)
        ensures
            name@ == self.name(),
    {
        String::from_str(self.as_str())
    }

    /// The template that goes by `name`.
    pub fn from_name(name: &str) -> (template: Option<EmailTemplateTypeLegacy>)
        ensures
            template == EmailTemplateTypeLegacy::named(name@),
    {
        if same_text(name, "default") {
            Some(EmailTemplateTypeLegacy::Default)
        } else if same_text(name, "metaspexet") {
            Some(EmailTemplateTypeLegacy::Metaspexet)
        } else if same_text(name, "none") {
            Some(EmailTemplateTypeLegacy::Plain)
        } else {
            None
        }
    }
}

impl From<EmailTemplateTypeLegacy> for String {
    fn from(template: EmailTemplateTypeLegacy) -> (name: String)
        ensures
            name@ == template.name(),
    {
        template.to_string()
    }
}

/// What `from` returns is stated on `from` itself, over the characters of
/// the name; no `String` is named here.
impl FromSpecImpl<EmailTemplateTypeLegacy> for String {
    open spec fn obeys_from_spec() -> bool {
        false
    }

    open spec fn from_spec(template: EmailTemplateTypeLegacy) -> String {
        arbitrary()
    }
}

/// Every template is found again by its name.
pub proof fn lemma_template_name_round_trip(template: EmailTemplateTypeLegacy)
    ensures
        EmailTemplateTypeLegacy::named(template.name()) == Some(template),
{
    reveal_strlit("default");
    reveal_strlit("metaspexet");
    reveal_strlit("none");
    assert("default"@.len() != "metaspexet"@.len());
    assert("default"@.len() != "none"@.len());
    assert("metaspexet"@.len() != "none"@.len());
}

/// The encoding of an attachment that names none.
pub fn encoding_default() -> (encoding: String)
    ensures
        encoding@ == "base64"@,
{
    String::from_str("base64")
}

/// A file to go with the mail, as the caller sent it.
#[derive(Debug, Clone)]
pub struct AttachmentLegacy {
    pub original_name: String,
    pub mimetype: String,
    pub buffer: String,
    pub encoding: String,
}

/// An [`AttachmentLegacy`] over sequences of characters.
pub struct AttachmentModel {
    pub original_name: Seq<char>,
    pub mimetype: Seq<char>,
    pub buffer: Seq<char>,
    pub encoding: Seq<char>,
}

impl View for AttachmentLegacy {
    type V = AttachmentModel;

    open spec fn view(&self) -> AttachmentModel {
        AttachmentModel {
            original_name: self.original_name@,
            mimetype: self.mimetype@,
            buffer: self.buffer@,
            encoding: self.encoding@,
        }
    }
}

/// A request to send one mail.
#[derive(Clone)]
pub struct EmailRequestLegacy {
    pub key: String,
    pub template: EmailTemplateTypeLegacy,
    pub from: AddressFieldLegacy,
    pub reply_to: Option<AddressFieldsLegacy>,
    pub to: Option<AddressFieldsLegacy>,
    pub subject: String,
    pub content: Option<String>,
    pub html: Option<String>,
    pub cc: Option<AddressFieldsLegacy>,
    pub bcc: Option<AddressFieldsLegacy>,
    pub attachments: Option<Vec<AttachmentLegacy>>,
}

/// The model of a collection, where there is one.
pub open spec fn optional_addresses(a: Option<AddressFieldsLegacy>) -> Option<AddressesModel> {
    match a {
        Some(a) => Some(a@),
        None => None,
    }
}

/// The characters of a text, where there is one.
pub open spec fn optional_text(s: Option<String>) -> Option<Seq<char>> {
    match s {
        Some(s) => Some(s@),
        None => None,
    }
}

/// The models of `attachments`, in order.
pub open spec fn attachment_models(attachments: Seq<AttachmentLegacy>) -> Seq<AttachmentModel> {
    Seq::new(attachments.len(), |i: int| attachments[i]@)
}

/// The models of the attachments, where there are any.
pub open spec fn optional_attachments(a: Option<Vec<AttachmentLegacy>>) -> Option<
    Seq<AttachmentModel>,
> {
    match a {
        Some(v) => Some(attachment_models(v@)),
        None => None,
    }
}

/// An [`EmailRequestLegacy`] over sequences of characters.
pub struct RequestModel {
    pub key: Seq<char>,
    pub template: EmailTemplateTypeLegacy,
    pub from: AddressModel,
    pub reply_to: Option<AddressesModel>,
    pub to: Option<AddressesModel>,
    pub subject: Seq<char>,
    pub content: Option<Seq<char>>,
    pub html: Option<Seq<char>>,
    pub cc: Option<AddressesModel>,
    pub bcc: Option<AddressesModel>,
    pub attachments: Option<Seq<AttachmentModel>>,
}

impl View for EmailRequestLegacy {
    type V = RequestModel;

    open spec fn view(&self) -> RequestModel {
        RequestModel {
            key: self.key@,
            template: self.template,
            from: self.from@,
            reply_to: optional_addresses(self.reply_to),
            to: optional_addresses(self.to),
            subject: self.subject@,
            content: optional_text(self.content),
            html: optional_text(self.html),
            cc: optional_addresses(self.cc),
            bcc: optional_addresses(self.bcc),
            attachments: optional_attachments(self.attachments),
        }
    }
}

} // verus!
