//! Random passwords under a request that says how long they are, which
//! character classes they draw on, and whether every class must show.

use crate::charset::{
    alphabet, free_of_similar, holds_class, in_class, is_similar, lemma_alphabet_is_class,
    lemma_distinct_alphabet, CharClass,
};
use crate::pwd_info::PwdInfo;
use vstd::prelude::*;

verus! {

/// Why a request cannot be served. It is found before anything is drawn.
#[derive(Clone, Copy, Debug, PartialEq, Eq, Structural)]
pub enum ConfigurationError {
    /// The requested length is zero.
    ZeroLength,
    /// No character class is enabled.
    NoCharacterClass,
    /// Every enabled class must show, and the length is smaller than the
    /// number of enabled classes.
    LengthTooShort,
}

/// What is asked of the generator.
#[derive(Clone, Copy, Debug)]
pub struct PasswordRequest {
    /// Number of characters in each password.
    pub length: u8,
    /// Draw on the digits.
    pub numbers: bool,
    /// Draw on the lowercase letters.
    pub lowercase_letters: bool,
    /// Draw on the uppercase letters.
    pub uppercase_letters: bool,
    /// Draw on the punctuation.
    pub symbols: bool,
    /// Draw on the space character.
    pub spaces: bool,
    /// Leave out the glyphs that are easily taken for one another.
    pub exclude_similar_characters: bool,
    /// Every enabled class shows at least once in every password.
    pub strict: bool,
    /// Number of passwords.
    pub count: u8,
}

/// The bit pattern of the score 100, the highest there is. The scores are
/// not negative, so their bit patterns are ordered as the scores are.
pub const FULL_SCORE_BITS: u64 = 0x4059_0000_0000_0000;

/// The bit pattern of the strength score of `password`.
pub uninterp spec fn strength_bits(password: Seq<char>) -> u64;

impl PasswordRequest {
    /// The class is enabled.
    pub open spec fn includes(self, class: CharClass) -> bool {
        match class {
            CharClass::Number => self.numbers,
            CharClass::Lowercase => self.lowercase_letters,
            CharClass::Uppercase => self.uppercase_letters,
            CharClass::Symbol => self.symbols,
            CharClass::Space => self.spaces,
        }
    }

    /// Number of enabled classes.
    pub open spec fn class_count(self) -> nat {
        (if self.numbers { 1nat } else { 0 }) + (if self.lowercase_letters { 1nat } else { 0 })
            + (if self.uppercase_letters { 1nat } else { 0 }) + (if self.symbols { 1nat } else {
            0
        }) + (if self.spaces { 1nat } else { 0 })
    }

    /// What is wrong with the request, if anything.
    pub open spec fn error(self) -> Option<ConfigurationError> {
        if self.length == 0 {
            Some(ConfigurationError::ZeroLength)
        } else if self.class_count() == 0 {
            Some(ConfigurationError::NoCharacterClass)
        } else if self.strict && self.length < self.class_count() {
            Some(ConfigurationError::LengthTooShort)
        } else {
            None
        }
    }

    /// The class is enabled and `c` stands in the alphabet it is drawn from.
    pub open spec fn offers(self, class: CharClass, c: char) -> bool {
        self.includes(class) && alphabet(class, self.exclude_similar_characters).contains(c)
    }

    /// Some enabled class offers `c`.
    pub open spec fn allows(self, c: char) -> bool {
        self.offers(CharClass::Number, c) || self.offers(CharClass::Lowercase, c) || self.offers(
            CharClass::Uppercase,
            c,
        ) || self.offers(CharClass::Symbol, c) || self.offers(CharClass::Space, c)
    }

    /// Some character of `password` is offered by the class.
    pub open spec fn shows(self, class: CharClass, password: Seq<char>) -> bool {
        exists|i: int| 0 <= i < password.len() && self.offers(class, #[trigger] password[i])
    }

    /// `password` is one that the request may be answered with: it has the
    /// requested length, all its characters are allowed, and under `strict`
    /// every enabled class shows in it.
    pub open spec fn admits(self, password: Seq<char>) -> bool {
        &&& password.len() == self.length
        &&& forall|i: int| 0 <= i < password.len() ==> self.allows(#[trigger] password[i])
        &&& self.strict ==> forall|class: CharClass| #[trigger]
            self.includes(class) ==> self.shows(class, password)
    }

    /// `c` is of an enabled class.
    pub open spec fn has_class_of(self, c: char) -> bool {
        ||| self.numbers && in_class(CharClass::Number, c)
        ||| self.lowercase_letters && in_class(CharClass::Lowercase, c)
        ||| self.uppercase_letters && in_class(CharClass::Uppercase, c)
        ||| self.symbols && in_class(CharClass::Symbol, c)
        ||| self.spaces && in_class(CharClass::Space, c)
    }

    /// Every character of `password` is of an enabled class.
    pub open spec fn covers(self, password: Seq<char>) -> bool {
        forall|i: int| 0 <= i < password.len() ==> self.has_class_of(#[trigger] password[i])
    }

    /// Number of enabled classes.
    pub fn count_classes(&self) -> (classes: u8)
        ensures
            classes == self.class_count(),
    {
        let mut classes: u8 = 0;
        if self.numbers {
            classes += 1;
        }
        if self.lowercase_letters {
            classes += 1;
        }
        if self.uppercase_letters {
            classes += 1;
        }
        if self.symbols {
            classes += 1;
        }
        if self.spaces {
            classes += 1;
        }
        classes
    }

    /// The request that asks for `count` passwords of `length` characters
    /// from the given classes, never from the space, without the similar
    /// glyphs, and with every enabled class showing.
    pub fn new(
        length: u8,
        numbers: bool,
        uppercase: bool,
        lowercase: bool,
        symbols: bool,
        count: u8,
    ) -> (request: PasswordRequest)
        ensures
            request == standard_request(length, numbers, uppercase, lowercase, symbols, count),
    {
        PasswordRequest {
            length,
            numbers,
            lowercase_letters: lowercase,
            uppercase_letters: uppercase,
            symbols,
            spaces: false,
            exclude_similar_characters: true,
            strict: true,
            count,
        }
    }

    /// Checks that the request can be served.
    pub fn validate(&self) -> (checked: Result<(), ConfigurationError>)
        ensures
            checked is Ok <==> self.error() is None,
            checked is Err ==> self.error() == Some(checked->Err_0),
    {
        let classes = self.count_classes();
        if self.length == 0 {
            Err(ConfigurationError::ZeroLength)
        } else if classes == 0 {
            Err(ConfigurationError::NoCharacterClass)
        } else if self.strict && self.length < classes {
            Err(ConfigurationError::LengthTooShort)
        } else {
            Ok(())
        }
    }

    /// Serves the request: `count` passwords, each with its score, in the
    /// order in which they were drawn. A request that cannot be served is
    /// refused before anything is drawn.
    pub fn generate(&self) -> (outcome: Result<Vec<PwdInfo>, ConfigurationError>)
        ensures
            outcome is Ok <==> self.error() is None,
            outcome is Err ==> self.error() == Some(outcome->Err_0),
            outcome is Ok ==> outcome->Ok_0@.len() == self.count,
            outcome is Ok ==> forall|i: int|
                0 <= i < outcome->Ok_0@.len() ==> self.admits(
                    (#[trigger] outcome->Ok_0@[i]).password@,
                ),
            outcome is Ok ==> forall|i: int|
                0 <= i < outcome->Ok_0@.len() ==> (#[trigger] outcome->Ok_0@[i]).score_bits
                    == strength_bits(outcome->Ok_0@[i].password@),
            outcome is Ok ==> forall|i: int|
                0 <= i < outcome->Ok_0@.len() ==> (#[trigger] outcome->Ok_0@[i]).score_bits
                    <= FULL_SCORE_BITS,
    {
        match self.validate() {
            Err(error) => Err(error),
            Ok(()) => match draw_passwords(self) {
                Some(passwords) => Ok(with_scores(passwords)),
                None => unreached(),
            },
        }
    }
}

/// The request that [`generate_pwd`] serves.
pub open spec fn standard_request(
    length: u8,
    numbers: bool,
    uppercase: bool,
    lowercase: bool,
    symbols: bool,
    count: u8,
) -> PasswordRequest {
    PasswordRequest {
        length,
        numbers,
        lowercase_letters: lowercase,
        uppercase_letters: uppercase,
        symbols,
        spaces: false,
        exclude_similar_characters: true,
        strict: true,
        count,
    }
}

/// A character that a class offers is of that class, and is none of the
/// similar glyphs where these are excluded.
pub proof fn lemma_offered_char(request: PasswordRequest, class: CharClass, c: char)
    ensures
        request.offers(class, c) ==> in_class(class, c),
        request.offers(class, c) && request.exclude_similar_characters ==> !is_similar(c),
{
    lemma_alphabet_is_class(class, c);
    lemma_distinct_alphabet(class, c);
}

/// What holds of every password that a request admits: it has the requested
/// length and holds characters of enabled classes only; where the similar
/// glyphs are excluded it holds none of them; and under `strict` it holds a
/// character of every enabled class.
pub proof fn lemma_admitted_password(request: PasswordRequest, password: Seq<char>)
    requires
        request.admits(password),
    ensures
        password.len() == request.length,
        request.covers(password),
        request.exclude_similar_characters ==> free_of_similar(password),
        request.strict ==> forall|class: CharClass| #[trigger]
            request.includes(class) ==> holds_class(password, class),
{
    assert forall|i: int| 0 <= i < password.len() implies request.has_class_of(
        #[trigger] password[i],
    ) by {
        assert(request.allows(password[i]));
        lemma_offered_char(request, CharClass::Number, password[i]);
        lemma_offered_char(request, CharClass::Lowercase, password[i]);
        lemma_offered_char(request, CharClass::Uppercase, password[i]);
        lemma_offered_char(request, CharClass::Symbol, password[i]);
        lemma_offered_char(request, CharClass::Space, password[i]);
    }
    if request.exclude_similar_characters {
        assert forall|i: int| 0 <= i < password.len() implies !is_similar(
            #[trigger] password[i],
        ) by {
            assert(request.allows(password[i]));
            lemma_offered_char(request, CharClass::Number, password[i]);
            lemma_offered_char(request, CharClass::Lowercase, password[i]);
            lemma_offered_char(request, CharClass::Uppercase, password[i]);
            lemma_offered_char(request, CharClass::Symbol, password[i]);
            lemma_offered_char(request, CharClass::Space, password[i]);
        }
    }
    if request.strict {
        assert forall|class: CharClass| #[trigger] request.includes(class) implies holds_class(
            password,
            class,
        ) by {
            assert(request.shows(class, password));
            let i = choose|i: int|
                0 <= i < password.len() && request.offers(class, #[trigger] password[i]);
            lemma_offered_char(request, class, password[i]);
        }
    }
}

/// Generates `count` passwords of `length` characters and scores each.
///
/// The passwords draw on the classes that are switched on, never on the
/// space, and leave out the glyphs that are easily taken for one another.
/// Every class that is switched on shows in every password.
pub fn generate_pwd(
    length: u8,
    numbers: bool,
    uppercase: bool,
    lowercase: bool,
    symbols: bool,
    count: u8,
) -> (list: Vec<PwdInfo>)
    requires
        standard_request(length, numbers, uppercase, lowercase, symbols, count).error() is None,
    ensures
        list@.len() == count,
        forall|i: int|
            0 <= i < list@.len() ==> {
                let password = (#[trigger] list@[i]).password@;
                &&& password.len() == length
                &&& standard_request(length, numbers, uppercase, lowercase, symbols, count).covers(
                    password,
                )
                &&& free_of_similar(password)
                &&& numbers ==> holds_class(password, CharClass::Number)
                &&& lowercase ==> holds_class(password, CharClass::Lowercase)
                &&& uppercase ==> holds_class(password, CharClass::Uppercase)
                &&& symbols ==> holds_class(password, CharClass::Symbol)
                &&& list@[i].score_bits == strength_bits(password)
                &&& list@[i].score_bits <= FULL_SCORE_BITS
            },
{
    let request = PasswordRequest::new(length, numbers, uppercase, lowercase, symbols, count);
    match request.generate() {
        Ok(list) => {
            proof {
                assert forall|i: int| 0 <= i < list@.len() implies {
                    let password = (#[trigger] list@[i]).password@;
                    &&& password.len() == length
                    &&& request.covers(password)
                    &&& free_of_similar(password)
                    &&& numbers ==> holds_class(password, CharClass::Number)
                    &&& lowercase ==> holds_class(password, CharClass::Lowercase)
                    &&& uppercase ==> holds_class(password, CharClass::Uppercase)
                    &&& symbols ==> holds_class(password, CharClass::Symbol)
                } by {
                    let password = list@[i].password@;
                    lemma_admitted_password(request, password);
                    assert(numbers ==> request.includes(CharClass::Number));
                    assert(lowercase ==> request.includes(CharClass::Lowercase));
                    assert(uppercase ==> request.includes(CharClass::Uppercase));
                    assert(symbols ==> request.includes(CharClass::Symbol));
                }
            }
            list
        },
        Err(_) => unreached(),
    }
}

/// Draws the passwords of a request with `passwords::PasswordGenerator::generate`.
///
/// The generator refuses a request exactly when [`PasswordRequest::error`]
/// names an error. Otherwise it returns `count` passwords. Each of them has
/// `length` characters, every one taken from the alphabet of an enabled
/// class; under `strict` it draws a password anew until every enabled class
/// shows in it.
#[verifier::external_body]
fn draw_passwords(request: &PasswordRequest) -> (drawn: Option<Vec<String>>)
    ensures
        drawn is Some <==> request.error() is None,
        drawn is Some ==> drawn->0@.len() == request.count,
        drawn is Some ==> forall|i: int|
            0 <= i < drawn->0@.len() ==> request.admits(#[trigger] drawn->0@[i]@),
{
    let generator = passwords::PasswordGenerator {
        length: request.length as usize,
        numbers: request.numbers,
        lowercase_letters: request.lowercase_letters,
        uppercase_letters: request.uppercase_letters,
        symbols: request.symbols,
        spaces: request.spaces,
        exclude_similar_characters: request.exclude_similar_characters,
        strict: request.strict,
    };
    generator.generate(request.count as usize).ok()
}

/// Scores a password with `passwords::analyzer::analyze` and
/// `passwords::scorer::score`.
///
/// The score depends on the characters of the password alone, so the same
/// password always has the same score. It is a number from 0 to 100, handed
/// back as its bit pattern.
#[verifier::external_body]
fn score_password(password: &str) -> (bits: u64)
    ensures
        bits == strength_bits(password@),
        bits <= FULL_SCORE_BITS,
{
    passwords::scorer::score(&passwords::analyzer::analyze(password)).to_bits()
}

/// Pairs each password with its score, in the order given.
pub fn with_scores(passwords: Vec<String>) -> (scored: Vec<PwdInfo>)
    ensures
        scored@.len() == passwords@.len(),
        forall|i: int|
            0 <= i < scored@.len() ==> (#[trigger] scored@[i]).password@ == passwords@[i]@,
        forall|i: int|
            0 <= i < scored@.len() ==> (#[trigger] scored@[i]).score_bits == strength_bits(
                passwords@[i]@,
            ),
        forall|i: int|
            0 <= i < scored@.len() ==> (#[trigger] scored@[i]).score_bits <= FULL_SCORE_BITS,
{
    let mut scored: Vec<PwdInfo> = Vec::new();
    for password in it: passwords
        invariant
            scored@.len() == it.index(),
            forall|i: int|
                0 <= i < scored@.len() ==> (#[trigger] scored@[i]).password@ == it.seq()[i]@,
            forall|i: int|
                0 <= i < scored@.len() ==> (#[trigger] scored@[i]).score_bits == strength_bits(
                    it.seq()[i]@,
                ),
            forall|i: int|
                0 <= i < scored@.len() ==> (#[trigger] scored@[i]).score_bits <= FULL_SCORE_BITS,
    {
        let bits = score_password(password.as_str());
        scored.push(PwdInfo::new(password, bits));
    }
    scored
}

} // verus!
