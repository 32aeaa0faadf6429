//! The reader of export files: one line after the other, each a list of
//! words that names what is to be interned or declared.

use crate::declar::{registered, Declar, DeclarNode, RecRulePtr};
use crate::expr::{ExprPtr, Term};
use crate::kernel::{Decl, Kind, Shape};
use crate::lexer::{
    lines_of, number_of, parse_number, split_lines, split_words, trim_end, trimmed, views,
    words_of,
};
use crate::name::{NamePtr, NameTerm};
use crate::hashing::digest_of_words;
use crate::model::Stores;
use crate::store::{
    declar_entries, exprs_len, names_len, rec_rule_items, rec_rules_len,
    universes_get_index_of, universes_len,
};
use crate::universe::{Level, Universe, UniversePtr, UparamsPtr, PARAM_HASH};
use crate::util::{ExportFile, Ptr};
use std::marker::PhantomData;
use vstd::prelude::*;
use vstd::string::StrSliceExecFns;
use vstd::utf8::{decode_utf8, valid_utf8};

verus! {

/// Why a line of an export file was refused.
#[derive(Debug, Clone, Copy, PartialEq, Eq, Structural)]
pub enum ParseErrorKind {
    /// The first line does not name the version that is read here.
    BadVersion,
    /// A line without words.
    EmptyLine,
    /// A line that begins with no known keyword.
    UnknownLine,
    /// A line that ends before all its words were read.
    MissingToken,
    /// A word that spells no number of the range asked for.
    BadNumber,
    /// A word that is none of the marks allowed at its place.
    BadFlag,
    /// A number that is no handle of its store.
    BadHandle,
    /// A line whose number is not the next handle of its store.
    WrongIndex,
    /// A level parameter that a declaration lists twice.
    DuplicateParam,
    /// A level parameter that was not interned as a level.
    UnknownParam,
    /// A name that should name an inductive type and does not.
    UnknownInductive,
    /// A name that should name a constructor and does not.
    UnknownConstructor,
    /// A line with words after its last.
    TrailingTokens,
    /// Text that is no UTF-8.
    BadText,
}

/// A refusal, with the number of the line in the file, the first line being
/// line 1.
#[derive(Debug, Clone, Copy, PartialEq, Eq, Structural)]
pub struct ParseError {
    pub line: usize,
    pub kind: ParseErrorKind,
}

/// What a word of a line is read as.
#[derive(Debug, Clone, Copy, PartialEq, Eq, Structural)]
pub enum Field {
    /// The handle of a name.
    Name,
    /// The handle of a level.
    Universe,
    /// The handle of an expression.
    Expr,
    /// The handle of a recursor rule.
    Rule,
    /// A number of 32 bits.
    U32,
    /// A number of 64 bits.
    U64,
    /// A number of 128 bits.
    U128,
    /// A byte in hexadecimal digits.
    Hex,
    /// `0` or `1`.
    Flag,
    /// One of the marks `#BD`, `#BI`, `#BC`, `#BS` of a binder.
    Info,
}

/// How many items the stores hold.
pub ghost struct Lens {
    pub names: nat,
    pub universes: nat,
    pub exprs: nat,
    pub rules: nat,
}

/// The bytes of a text of ASCII characters.
pub open spec fn ascii(text: Seq<char>) -> Seq<u8> {
    Seq::new(text.len(), |i: int| text[i] as u8)
}

/// The handle at position `i`.
pub open spec fn ptr<A>(i: nat) -> Ptr<A> {
    Ptr { idx: i as usize, ph: PhantomData }
}

/// The number that a word spells, if it is a handle below `len`.
pub open spec fn handle_of(word: Seq<u8>, len: nat) -> Result<nat, ParseErrorKind> {
    match number_of(word, 10, u32::MAX as nat) {
        None => Err(ParseErrorKind::BadNumber),
        Some(v) => if v < len {
            Ok(v)
        } else {
            Err(ParseErrorKind::BadHandle)
        },
    }
}

/// The number that a word spells, if it is one of at most `max`.
pub open spec fn plain_of(word: Seq<u8>, radix: nat, max: nat) -> Result<nat, ParseErrorKind> {
    match number_of(word, radix, max) {
        None => Err(ParseErrorKind::BadNumber),
        Some(v) => Ok(v),
    }
}

/// What a word is read as a field of the given kind: its number, or 0 for
/// a mark.
pub open spec fn field_value(lens: Lens, word: Seq<u8>, kind: Field) -> Result<
    nat,
    ParseErrorKind,
> {
    match kind {
        Field::Name => handle_of(word, lens.names),
        Field::Universe => handle_of(word, lens.universes),
        Field::Expr => handle_of(word, lens.exprs),
        Field::Rule => handle_of(word, lens.rules),
        Field::U32 => plain_of(word, 10, u32::MAX as nat),
        Field::U64 => plain_of(word, 10, u64::MAX as nat),
        Field::U128 => plain_of(word, 10, u128::MAX as nat),
        Field::Hex => plain_of(word, 16, u8::MAX as nat),
        Field::Flag => if word == ascii("0"@) {
            Ok(0)
        } else if word == ascii("1"@) {
            Ok(1)
        } else {
            Err(ParseErrorKind::BadFlag)
        },
        Field::Info => if word == ascii("#BD"@) || word == ascii("#BI"@) || word == ascii("#BC"@)
            || word == ascii("#BS"@) {
            Ok(0)
        } else {
            Err(ParseErrorKind::BadFlag)
        },
    }
}

/// The words from `at` on read as fields of the given kinds, one word for
/// each kind, up to the first that is refused.
pub open spec fn fields_of(lens: Lens, ws: Seq<Seq<u8>>, at: int, kinds: Seq<Field>) -> Result<
    Seq<nat>,
    ParseErrorKind,
>
    decreases kinds.len(),
{
    if kinds.len() == 0 {
        Ok(Seq::empty())
    } else if at < 0 || at >= ws.len() {
        Err(ParseErrorKind::MissingToken)
    } else {
        match field_value(lens, ws[at], kinds[0]) {
            Err(k) => Err(k),
            Ok(v) => match fields_of(lens, ws, at + 1, kinds.skip(1)) {
                Err(k) => Err(k),
                Ok(rest) => Ok(seq![v] + rest),
            },
        }
    }
}

/// Fields that were read were each read from its word.
pub proof fn lemma_fields(lens: Lens, ws: Seq<Seq<u8>>, at: int, kinds: Seq<Field>, i: int)
    requires
        fields_of(lens, ws, at, kinds) is Ok,
        0 <= i < kinds.len(),
    ensures
        fields_of(lens, ws, at, kinds).unwrap().len() == kinds.len(),
        0 <= at + i < ws.len(),
        field_value(lens, ws[at + i], kinds[i]) == Ok::<nat, ParseErrorKind>(
            fields_of(lens, ws, at, kinds).unwrap()[i],
        ),
    decreases kinds.len(),
{
    let rest = fields_of(lens, ws, at + 1, kinds.skip(1));
    if kinds.len() > 1 {
        lemma_fields(lens, ws, at + 1, kinds.skip(1), if i > 0 {
            i - 1
        } else {
            0
        });
    }
}

/// How many words a line has from `at` on.
pub open spec fn rest_len(ws: Seq<Seq<u8>>, at: int) -> nat {
    if 0 <= at <= ws.len() {
        (ws.len() - at) as nat
    } else {
        0
    }
}

/// As many fields of one kind as a line has words from `at` on.
pub open spec fn rest_of(ws: Seq<Seq<u8>>, at: int, kind: Field) -> Seq<Field> {
    Seq::new(rest_len(ws, at), |i: int| kind)
}

/// `count` fields of one kind, or as many as show that the line is too
/// short for them.
pub open spec fn run_of(ws: Seq<Seq<u8>>, count: nat, kind: Field) -> Seq<Field> {
    Seq::new(
        if count <= ws.len() {
            count
        } else {
            ws.len() + 1
        },
        |i: int| kind,
    )
}

/// The level parameters that a list of name handles stands for.
pub open spec fn param_levels(st: Stores, g: Seq<nat>) -> Seq<Level> {
    Seq::new(g.len(), |i: int| Level::Param(st.name(ptr(g[i]))))
}

/// The levels that a list of level handles stands for.
pub open spec fn handle_levels(st: Stores, g: Seq<nat>) -> Seq<Level> {
    Seq::new(g.len(), |i: int| st.level(ptr(g[i])))
}

/// The handles of names that a list of numbers stands for.
pub open spec fn handle_ptrs(g: Seq<nat>) -> Seq<NamePtr> {
    Seq::new(g.len(), |i: int| ptr(g[i]))
}

/// The names that a list of name handles stands for.
pub open spec fn handle_names(st: Stores, g: Seq<nat>) -> Seq<NameTerm> {
    Seq::new(g.len(), |i: int| st.name(ptr(g[i])))
}

/// The characters that a list of bytes stands for, each byte one
/// character.
pub open spec fn byte_chars(g: Seq<nat>) -> Seq<char> {
    Seq::new(g.len(), |i: int| (g[i] as u8) as char)
}

/// Whether the name was interned as a level parameter.
pub open spec fn knows_param(st: Stores, n: NamePtr) -> bool {
    exists|u: UniversePtr| st.has_universe(u) && st.level(u) == Level::Param(st.name(n))
}

/// Whether every name of the list was interned as a level parameter.
pub open spec fn params_known(st: Stores, g: Seq<nat>) -> bool {
    forall|i: int| 0 <= i < g.len() ==> knows_param(st, ptr(#[trigger] g[i]))
}

/// Why a list of level parameters is refused: a name is listed twice, or
/// one was not interned as a level parameter.
pub open spec fn params_refused(st: Stores, g: Seq<nat>, k: ParseErrorKind) -> bool {
    ||| k == ParseErrorKind::DuplicateParam && !all_differ(g)
    ||| k == ParseErrorKind::UnknownParam && !params_known(st, g)
}

/// Whether no number occurs twice in the list.
pub open spec fn all_differ(g: Seq<nat>) -> bool {
    forall|i: int, j: int| 0 <= i < j < g.len() ==> g[i] != g[j]
}

/// `String::from_utf8`: the text that the bytes encode, if they are UTF-8.
#[verifier::external_body]
fn text_of(bytes: Vec<u8>) -> (r: Option<String>)
    ensures
        r is Some <==> valid_utf8(bytes@),
        r is Some ==> r.unwrap()@ == decode_utf8(bytes@),
{
    String::from_utf8(bytes).ok()
}

/// `String::push`: the text with the character appended.
#[verifier::external_body]
fn push_char(s: &mut String, c: char)
    ensures
        final(s)@ == old(s)@.push(c),
{
    s.push(c)
}

/// A list of `n` fields of one kind.
fn repeat(kind: Field, n: usize) -> (r: Vec<Field>)
    ensures
        r@ == Seq::new(n as nat, |i: int| kind),
{
    let mut r: Vec<Field> = Vec::new();
    let mut i: usize = 0;
    while i < n
        invariant
            i <= n,
            r@ == Seq::new(i as nat, |j: int| kind),
        decreases n - i,
    {
        r.push(kind);
        assert(r@ =~= Seq::new((i + 1) as nat, |j: int| kind));
        i += 1;
    }
    r
}

/// Where the words after the reducibility hint at `at` begin: the hint is
/// `O`, `A`, or `R` with a number after it.
pub open spec fn hint_end(lens: Lens, ws: Seq<Seq<u8>>, at: int) -> Result<int, ParseErrorKind> {
    if at < 0 || at >= ws.len() {
        Err(ParseErrorKind::MissingToken)
    } else if ws[at] == ascii("O"@) || ws[at] == ascii("A"@) {
        Ok(at + 1)
    } else if ws[at] == ascii("R"@) {
        match fields_of(lens, ws, at + 1, seq![Field::U32]) {
            Ok(_) => Ok(at + 2),
            Err(k) => Err(k),
        }
    } else {
        Err(ParseErrorKind::BadFlag)
    }
}

/// Whether every name of the list names an inductive type.
pub open spec fn all_inductive(d: crate::kernel::Decls, st: Stores, a: Seq<nat>) -> bool {
    forall|i: int|
        0 <= i < a.len() ==> d.contains_key(st.name(ptr(#[trigger] a[i]))) && d[st.name(
            ptr(a[i]),
        )].shape is Inductive
}

/// Whether the word is the given text of ASCII characters.
pub fn word_is(word: &Vec<u8>, text: &str) -> (r: bool)
    requires
        text.is_ascii(),
    ensures
        r == (word@ == ascii(text@)),
{
    broadcast use vstd::string::is_ascii_spec_bytes;

    let bytes = text.as_bytes_vec();
    assert(bytes@ =~= ascii(text@));
    if word.len() != bytes.len() {
        return false;
    }
    let mut i: usize = 0;
    while i < word.len()
        invariant
            i <= word.len(),
            word.len() == bytes.len(),
            bytes@ == ascii(text@),
            forall|j: int| 0 <= j < i ==> word@[j] == bytes@[j],
        decreases word.len() - i,
    {
        if word[i] != bytes[i] {
            return false;
        }
        i += 1;
    }
    assert(word@ =~= bytes@);
    true
}

impl ExportFile {
    /// `self` is `old` with the declaration `d` registered under its name,
    /// in the place of the entry that the name had or else after all the
    /// others, and the level parameters of `d` are those that the names `g`
    /// stand for.
    pub open spec fn declared_as(&self, old: &ExportFile, d: DeclarNode, g: Seq<nat>) -> bool {
        &&& self.stores().has_uparams(d.uparams())
        &&& self.stores().levels(d.uparams()) == param_levels(old.stores(), g)
        &&& registered(declar_entries(self.declars), declar_entries(old.declars), d)
    }

    /// How many items the stores hold.
    pub open spec fn lens(&self) -> Lens {
        Lens {
            names: self.stores().names.len(),
            universes: self.stores().universes.len(),
            exprs: self.stores().exprs.len(),
            rules: rec_rule_items(self.rec_rules).len(),
        }
    }

    /// Reads a word as a handle of a store with `len` items.
    fn read_handle(word: &Vec<u8>, len: usize) -> (r: Result<u128, ParseErrorKind>)
        ensures
            r is Ok <==> handle_of(word@, len as nat) is Ok,
            r is Ok ==> r.unwrap() == handle_of(word@, len as nat).unwrap(),
            r is Err ==> r->Err_0 == handle_of(word@, len as nat)->Err_0,
    {
        match parse_number(word, 10, u32::MAX as u128) {
            None => Err(ParseErrorKind::BadNumber),
            Some(v) => if v < len as u128 {
                Ok(v)
            } else {
                Err(ParseErrorKind::BadHandle)
            },
        }
    }

    /// Reads a word as a number of at most `max` in the given radix.
    fn read_plain(word: &Vec<u8>, radix: u8, max: u128) -> (r: Result<u128, ParseErrorKind>)
        requires
            radix >= 1,
        ensures
            r is Ok <==> plain_of(word@, radix as nat, max as nat) is Ok,
            r is Ok ==> r.unwrap() == plain_of(word@, radix as nat, max as nat).unwrap(),
            r is Err ==> r->Err_0 == plain_of(word@, radix as nat, max as nat)->Err_0,
    {
        match parse_number(word, radix, max) {
            None => Err(ParseErrorKind::BadNumber),
            Some(v) => Ok(v),
        }
    }

    /// Reads a word as a field of the given kind.
    pub fn read_field(&self, word: &Vec<u8>, kind: Field) -> (r: Result<u128, ParseErrorKind>)
        ensures
            r is Ok <==> field_value(self.lens(), word@, kind) is Ok,
            r is Ok ==> r.unwrap() == field_value(self.lens(), word@, kind).unwrap(),
            r is Err ==> r->Err_0 == field_value(self.lens(), word@, kind)->Err_0,
    {
        proof {
            reveal_strlit("0");
            reveal_strlit("1");
            reveal_strlit("#BD");
            reveal_strlit("#BI");
            reveal_strlit("#BC");
            reveal_strlit("#BS");
        }
        match kind {
            Field::Name => Self::read_handle(word, names_len(&self.names)),
            Field::Universe => Self::read_handle(word, universes_len(&self.universes)),
            Field::Expr => Self::read_handle(word, exprs_len(&self.exprs)),
            Field::Rule => Self::read_handle(word, rec_rules_len(&self.rec_rules)),
            Field::U32 => Self::read_plain(word, 10, u32::MAX as u128),
            Field::U64 => Self::read_plain(word, 10, u64::MAX as u128),
            Field::U128 => Self::read_plain(word, 10, u128::MAX),
            Field::Hex => Self::read_plain(word, 16, u8::MAX as u128),
            Field::Flag => {
                if word_is(word, "0") {
                    Ok(0)
                } else if word_is(word, "1") {
                    Ok(1)
                } else {
                    Err(ParseErrorKind::BadFlag)
                }
            },
            Field::Info => {
                if word_is(word, "#BD") || word_is(word, "#BI") || word_is(word, "#BC") || word_is(
                    word,
                    "#BS",
                ) {
                    Ok(0)
                } else {
                    Err(ParseErrorKind::BadFlag)
                }
            },
        }
    }

    /// Reads the words from `at` on as fields of the given kinds.
    pub fn read_fields(&self, ws: &Vec<Vec<u8>>, at: usize, kinds: &Vec<Field>) -> (r: Result<
        Vec<u128>,
        ParseErrorKind,
    >)
        ensures
            match fields_of(self.lens(), views(ws@), at as int, kinds@) {
                Ok(f) => r is Ok && f.len() == kinds@.len() && (kinds@.len() > 0 ==> at
                    + kinds@.len() <= ws@.len()) && r.unwrap()@.len() == f.len() && forall|i: int|
                    0 <= i < f.len() ==> #[trigger] r.unwrap()@[i] == f[i] && field_value(
                        self.lens(),
                        views(ws@)[at + i],
                        kinds@[i],
                    ) == Ok::<nat, ParseErrorKind>(f[i]),
                Err(k) => r == Err::<Vec<u128>, ParseErrorKind>(k),
            },
    {
        let ghost lens = self.lens();
        let ghost words = views(ws@);
        let ghost goal = fields_of(lens, words, at as int, kinds@);
        let mut out: Vec<u128> = Vec::new();
        let mut i: usize = 0;
        assert(kinds@.skip(0) =~= kinds@);
        while i < kinds.len()
            invariant
                i <= kinds.len(),
                lens == self.lens(),
                words == views(ws@),
                out@.len() == i,
                i > 0 ==> at + i <= ws@.len(),
                goal == fields_of(lens, words, at as int, kinds@),
                goal == match fields_of(lens, words, at + i, kinds@.skip(i as int)) {
                    Err(k) => Err::<Seq<nat>, ParseErrorKind>(k),
                    Ok(rest) => Ok(Seq::new(i as nat, |j: int| out@[j] as nat) + rest),
                },
            decreases kinds.len() - i,
        {
            let ghost left = kinds@.skip(i as int);
            assert(left.skip(1) =~= kinds@.skip(i + 1));
            assert(left[0] == kinds@[i as int]);
            if at >= ws.len() || i >= ws.len() - at {
                return Err(ParseErrorKind::MissingToken);
            }
            assert(words[at + i] == ws@[at + i]@);
            let v = match self.read_field(&ws[at + i], kinds[i]) {
                Ok(v) => v,
                Err(k) => {
                    return Err(k);
                },
            };
            let ghost before = Seq::new(i as nat, |j: int| out@[j] as nat);
            out.push(v);
            proof {
                let after = Seq::new((i + 1) as nat, |j: int| out@[j] as nat);
                assert(after =~= before + seq![v as nat]);
                match fields_of(lens, words, at + i + 1, kinds@.skip(i + 1)) {
                    Ok(rest) => {
                        assert(before + (seq![v as nat] + rest) =~= after + rest);
                    },
                    Err(_) => {},
                }
            }
            i += 1;
        }
        proof {
            let all = Seq::new(i as nat, |j: int| out@[j] as nat);
            assert(kinds@.skip(i as int).len() == 0);
            assert(all + Seq::<nat>::empty() =~= all);
            assert(goal == Ok::<Seq<nat>, ParseErrorKind>(all));
            assert forall|j: int| 0 <= j < all.len() implies field_value(
                lens,
                words[at + j],
                kinds@[j],
            ) == Ok::<nat, ParseErrorKind>(all[j]) by {
                lemma_fields(lens, words, at as int, kinds@, j);
            }
        }
        Ok(out)
    }

    /// What a line `#NI` does to the environment `old`, which becomes `self`, and
    /// what is returned for it.
    pub open spec fn ni_line(
        &self,
        old: &ExportFile,
        idx: u32,
        ws: Seq<Seq<u8>>,
        r: Result<NamePtr, ParseErrorKind>,
    ) -> bool {
        match fields_of(old.lens(), ws, 2, seq![Field::Name, Field::U64]) {
            Err(k) => r == Err::<NamePtr, ParseErrorKind>(k),
            Ok(f) => if idx != old.lens().names {
                r == Err::<NamePtr, ParseErrorKind>(ParseErrorKind::WrongIndex)
            } else {
                &&& r is Ok
                &&& self.stores().has_name(r.unwrap())
                &&& self.stores().name(r.unwrap()) == NameTerm::Num(
                    Box::new(old.stores().name(ptr(f[0]))),
                    f[1] as u64,
                )
            },
        }
    }

    /// `#NI pfx num`: interns the name `pfx.num`, which is to get the handle
    /// `idx`.
    pub fn parse_ni(&mut self, idx: u32, ws: &Vec<Vec<u8>>) -> (r: Result<NamePtr, ParseErrorKind>)
        requires
            old(self).wf(),
        ensures
            final(self).grown(old(self)),
            final(self).ni_line(old(self), idx, views(ws@), r),
    {
        proof {
            self.lemma_grown_refl();
        }
        let kinds = vec![Field::Name, Field::U64];
        assert(kinds@ =~= seq![Field::Name, Field::U64]);
        let f = self.read_fields(ws, 2, &kinds)?;
        if idx as usize != names_len(&self.names) {
            return Err(ParseErrorKind::WrongIndex);
        }
        let pfx: NamePtr = Ptr::from(f[0] as usize);
        Ok(self.num(pfx, f[1] as u64))
    }

    /// What a line `#US` does to the environment `old`, which becomes `self`, and
    /// what is returned for it.
    pub open spec fn us_line(
        &self,
        old: &ExportFile,
        idx: u32,
        ws: Seq<Seq<u8>>,
        r: Result<UniversePtr, ParseErrorKind>,
    ) -> bool {
        match fields_of(old.lens(), ws, 2, seq![Field::Universe]) {
            Err(k) => r == Err::<UniversePtr, ParseErrorKind>(k),
            Ok(f) => if idx != old.lens().universes {
                r == Err::<UniversePtr, ParseErrorKind>(ParseErrorKind::WrongIndex)
            } else {
                &&& r is Ok
                &&& self.stores().has_universe(r.unwrap())
                &&& self.stores().level(r.unwrap()) == Level::Succ(
                    Box::new(old.stores().level(ptr(f[0]))),
                )
            },
        }
    }

    /// `#US u`: interns the successor of the level `u`, which is to get the
    /// handle `idx`.
    pub fn parse_us(
        &mut self,
        idx: u32,
        ws: &Vec<Vec<u8>>,
    ) -> (r: Result<UniversePtr, ParseErrorKind>)
        requires
            old(self).wf(),
        ensures
            final(self).grown(old(self)),
            final(self).us_line(old(self), idx, views(ws@), r),
    {
        proof {
            self.lemma_grown_refl();
        }
        let kinds = vec![Field::Universe];
        assert(kinds@ =~= seq![Field::Universe]);
        let f = self.read_fields(ws, 2, &kinds)?;
        if idx as usize != universes_len(&self.universes) {
            return Err(ParseErrorKind::WrongIndex);
        }
        let u: UniversePtr = Ptr::from(f[0] as usize);
        Ok(self.succ(u))
    }

    /// What a line `#UM` does to the environment `old`, which becomes `self`, and
    /// what is returned for it.
    pub open spec fn um_line(
        &self,
        old: &ExportFile,
        idx: u32,
        ws: Seq<Seq<u8>>,
        r: Result<UniversePtr, ParseErrorKind>,
    ) -> bool {
        match fields_of(old.lens(), ws, 2, seq![Field::Universe, Field::Universe]) {
            Err(k) => r == Err::<UniversePtr, ParseErrorKind>(k),
            Ok(f) => if idx != old.lens().universes {
                r == Err::<UniversePtr, ParseErrorKind>(ParseErrorKind::WrongIndex)
            } else {
                &&& r is Ok
                &&& self.stores().has_universe(r.unwrap())
                &&& self.stores().level(r.unwrap()) == Level::Max(
                    Box::new(old.stores().level(ptr(f[0]))),
                    Box::new(old.stores().level(ptr(f[1]))),
                )
            },
        }
    }

    /// `#UM l r`: interns the maximum of the levels `l` and `r`, which is to get
    /// the handle `idx`.
    pub fn parse_um(
        &mut self,
        idx: u32,
        ws: &Vec<Vec<u8>>,
    ) -> (r: Result<UniversePtr, ParseErrorKind>)
        requires
            old(self).wf(),
        ensures
            final(self).grown(old(self)),
            final(self).um_line(old(self), idx, views(ws@), r),
    {
        proof {
            self.lemma_grown_refl();
        }
        let kinds = vec![Field::Universe, Field::Universe];
        assert(kinds@ =~= seq![Field::Universe, Field::Universe]);
        let f = self.read_fields(ws, 2, &kinds)?;
        if idx as usize != universes_len(&self.universes) {
            return Err(ParseErrorKind::WrongIndex);
        }
        let l: UniversePtr = Ptr::from(f[0] as usize);
        let r: UniversePtr = Ptr::from(f[1] as usize);
        Ok(self.max(l, r))
    }

    /// What a line `#UIM` does to the environment `old`, which becomes `self`,
    /// and what is returned for it.
    pub open spec fn uim_line(
        &self,
        old: &ExportFile,
        idx: u32,
        ws: Seq<Seq<u8>>,
        r: Result<UniversePtr, ParseErrorKind>,
    ) -> bool {
        match fields_of(old.lens(), ws, 2, seq![Field::Universe, Field::Universe]) {
            Err(k) => r == Err::<UniversePtr, ParseErrorKind>(k),
            Ok(f) => if idx != old.lens().universes {
                r == Err::<UniversePtr, ParseErrorKind>(ParseErrorKind::WrongIndex)
            } else {
                &&& r is Ok
                &&& self.stores().has_universe(r.unwrap())
                &&& self.stores().level(r.unwrap()) == Level::IMax(
                    Box::new(old.stores().level(ptr(f[0]))),
                    Box::new(old.stores().level(ptr(f[1]))),
                )
            },
        }
    }

    /// `#UIM l r`: interns the impredicative maximum of the levels `l` and `r`,
    /// which is to get the handle `idx`.
    pub fn parse_uim(
        &mut self,
        idx: u32,
        ws: &Vec<Vec<u8>>,
    ) -> (r: Result<UniversePtr, ParseErrorKind>)
        requires
            old(self).wf(),
        ensures
            final(self).grown(old(self)),
            final(self).uim_line(old(self), idx, views(ws@), r),
    {
        proof {
            self.lemma_grown_refl();
        }
        let kinds = vec![Field::Universe, Field::Universe];
        assert(kinds@ =~= seq![Field::Universe, Field::Universe]);
        let f = self.read_fields(ws, 2, &kinds)?;
        if idx as usize != universes_len(&self.universes) {
            return Err(ParseErrorKind::WrongIndex);
        }
        let l: UniversePtr = Ptr::from(f[0] as usize);
        let r: UniversePtr = Ptr::from(f[1] as usize);
        Ok(self.imax(l, r))
    }

    /// What a line `#UP` does to the environment `old`, which becomes `self`, and
    /// what is returned for it.
    pub open spec fn up_line(
        &self,
        old: &ExportFile,
        idx: u32,
        ws: Seq<Seq<u8>>,
        r: Result<UniversePtr, ParseErrorKind>,
    ) -> bool {
        match fields_of(old.lens(), ws, 2, seq![Field::Name]) {
            Err(k) => r == Err::<UniversePtr, ParseErrorKind>(k),
            Ok(f) => if idx != old.lens().universes {
                r == Err::<UniversePtr, ParseErrorKind>(ParseErrorKind::WrongIndex)
            } else {
                &&& r is Ok
                &&& self.stores().has_universe(r.unwrap())
                &&& self.stores().level(r.unwrap()) == Level::Param(old.stores().name(ptr(f[0])))
            },
        }
    }

    /// `#UP name`: interns the level parameter `name`, which is to get the handle
    /// `idx`.
    pub fn parse_up(
        &mut self,
        idx: u32,
        ws: &Vec<Vec<u8>>,
    ) -> (r: Result<UniversePtr, ParseErrorKind>)
        requires
            old(self).wf(),
        ensures
            final(self).grown(old(self)),
            final(self).up_line(old(self), idx, views(ws@), r),
    {
        proof {
            self.lemma_grown_refl();
        }
        let kinds = vec![Field::Name];
        assert(kinds@ =~= seq![Field::Name]);
        let f = self.read_fields(ws, 2, &kinds)?;
        if idx as usize != universes_len(&self.universes) {
            return Err(ParseErrorKind::WrongIndex);
        }
        let n: NamePtr = Ptr::from(f[0] as usize);
        Ok(self.param(n))
    }

    /// What a line `#EV` does to the environment `old`, which becomes `self`, and
    /// what is returned for it.
    pub open spec fn ev_line(
        &self,
        old: &ExportFile,
        idx: u32,
        ws: Seq<Seq<u8>>,
        r: Result<ExprPtr, ParseErrorKind>,
    ) -> bool {
        match fields_of(old.lens(), ws, 2, seq![Field::U32]) {
            Err(k) => r == Err::<ExprPtr, ParseErrorKind>(k),
            Ok(f) => if idx != old.lens().exprs {
                r == Err::<ExprPtr, ParseErrorKind>(ParseErrorKind::WrongIndex)
            } else {
                &&& r is Ok
                &&& self.stores().has_expr(r.unwrap())
                &&& self.stores().term(r.unwrap()) == Term::BVar(f[0] as u32)
            },
        }
    }

    /// `#EV dbj`: interns the bound variable with the index `dbj`, which is to
    /// get the handle `idx`.
    pub fn parse_ev(&mut self, idx: u32, ws: &Vec<Vec<u8>>) -> (r: Result<ExprPtr, ParseErrorKind>)
        requires
            old(self).wf(),
        ensures
            final(self).grown(old(self)),
            final(self).ev_line(old(self), idx, views(ws@), r),
    {
        proof {
            self.lemma_grown_refl();
        }
        let kinds = vec![Field::U32];
        assert(kinds@ =~= seq![Field::U32]);
        let f = self.read_fields(ws, 2, &kinds)?;
        if idx as usize != exprs_len(&self.exprs) {
            return Err(ParseErrorKind::WrongIndex);
        }
        Ok(self.var(f[0] as u32))
    }

    /// What a line `#ES` does to the environment `old`, which becomes `self`, and
    /// what is returned for it.
    pub open spec fn es_line(
        &self,
        old: &ExportFile,
        idx: u32,
        ws: Seq<Seq<u8>>,
        r: Result<ExprPtr, ParseErrorKind>,
    ) -> bool {
        match fields_of(old.lens(), ws, 2, seq![Field::Universe]) {
            Err(k) => r == Err::<ExprPtr, ParseErrorKind>(k),
            Ok(f) => if idx != old.lens().exprs {
                r == Err::<ExprPtr, ParseErrorKind>(ParseErrorKind::WrongIndex)
            } else {
                &&& r is Ok
                &&& self.stores().has_expr(r.unwrap())
                &&& self.stores().term(r.unwrap()) == Term::Sort(old.stores().level(ptr(f[0])))
            },
        }
    }

    /// `#ES u`: interns the sort of the level `u`, which is to get the handle
    /// `idx`.
    pub fn parse_es(&mut self, idx: u32, ws: &Vec<Vec<u8>>) -> (r: Result<ExprPtr, ParseErrorKind>)
        requires
            old(self).wf(),
        ensures
            final(self).grown(old(self)),
            final(self).es_line(old(self), idx, views(ws@), r),
    {
        proof {
            self.lemma_grown_refl();
        }
        let kinds = vec![Field::Universe];
        assert(kinds@ =~= seq![Field::Universe]);
        let f = self.read_fields(ws, 2, &kinds)?;
        if idx as usize != exprs_len(&self.exprs) {
            return Err(ParseErrorKind::WrongIndex);
        }
        let u: UniversePtr = Ptr::from(f[0] as usize);
        Ok(self.sort(u))
    }

    /// What a line `#EA` does to the environment `old`, which becomes `self`, and
    /// what is returned for it.
    pub open spec fn ea_line(
        &self,
        old: &ExportFile,
        idx: u32,
        ws: Seq<Seq<u8>>,
        r: Result<ExprPtr, ParseErrorKind>,
    ) -> bool {
        match fields_of(old.lens(), ws, 2, seq![Field::Expr, Field::Expr]) {
            Err(k) => r == Err::<ExprPtr, ParseErrorKind>(k),
            Ok(f) => if idx != old.lens().exprs {
                r == Err::<ExprPtr, ParseErrorKind>(ParseErrorKind::WrongIndex)
            } else {
                &&& r is Ok
                &&& self.stores().has_expr(r.unwrap())
                &&& self.stores().term(r.unwrap()) == Term::App(
                    Box::new(old.stores().term(ptr(f[0]))),
                    Box::new(old.stores().term(ptr(f[1]))),
                )
            },
        }
    }

    /// `#EA f a`: interns the application of `f` to `a`, which is to get the
    /// handle `idx`.
    pub fn parse_ea(&mut self, idx: u32, ws: &Vec<Vec<u8>>) -> (r: Result<ExprPtr, ParseErrorKind>)
        requires
            old(self).wf(),
        ensures
            final(self).grown(old(self)),
            final(self).ea_line(old(self), idx, views(ws@), r),
    {
        proof {
            self.lemma_grown_refl();
        }
        let kinds = vec![Field::Expr, Field::Expr];
        assert(kinds@ =~= seq![Field::Expr, Field::Expr]);
        let f = self.read_fields(ws, 2, &kinds)?;
        if idx as usize != exprs_len(&self.exprs) {
            return Err(ParseErrorKind::WrongIndex);
        }
        let fun: ExprPtr = Ptr::from(f[0] as usize);
        let arg: ExprPtr = Ptr::from(f[1] as usize);
        Ok(self.app(fun, arg))
    }

    /// What a line `#EL` does to the environment `old`, which becomes `self`, and
    /// what is returned for it.
    pub open spec fn el_line(
        &self,
        old: &ExportFile,
        idx: u32,
        ws: Seq<Seq<u8>>,
        r: Result<ExprPtr, ParseErrorKind>,
    ) -> bool {
        match fields_of(old.lens(), ws, 2, seq![Field::Info, Field::Name, Field::Expr, Field::Expr]) {
            Err(k) => r == Err::<ExprPtr, ParseErrorKind>(k),
            Ok(f) => if idx != old.lens().exprs {
                r == Err::<ExprPtr, ParseErrorKind>(ParseErrorKind::WrongIndex)
            } else {
                &&& r is Ok
                &&& self.stores().has_expr(r.unwrap())
                &&& self.stores().term(r.unwrap()) == Term::Lam(
                    old.stores().name(ptr(f[1])),
                    Box::new(old.stores().term(ptr(f[2]))),
                    Box::new(old.stores().term(ptr(f[3]))),
                )
            },
        }
    }

    /// `#EL info name ty body`: interns a function, which is to get the handle
    /// `idx`. The mark of the binder is read and dropped.
    pub fn parse_el(&mut self, idx: u32, ws: &Vec<Vec<u8>>) -> (r: Result<ExprPtr, ParseErrorKind>)
        requires
            old(self).wf(),
        ensures
            final(self).grown(old(self)),
            final(self).el_line(old(self), idx, views(ws@), r),
    {
        proof {
            self.lemma_grown_refl();
        }
        let kinds = vec![Field::Info, Field::Name, Field::Expr, Field::Expr];
        assert(kinds@ =~= seq![Field::Info, Field::Name, Field::Expr, Field::Expr]);
        let f = self.read_fields(ws, 2, &kinds)?;
        if idx as usize != exprs_len(&self.exprs) {
            return Err(ParseErrorKind::WrongIndex);
        }
        let name: NamePtr = Ptr::from(f[1] as usize);
        let tipo: ExprPtr = Ptr::from(f[2] as usize);
        let body: ExprPtr = Ptr::from(f[3] as usize);
        Ok(self.lambda(name, tipo, body))
    }

    /// What a line `#EP` does to the environment `old`, which becomes `self`, and
    /// what is returned for it.
    pub open spec fn ep_line(
        &self,
        old: &ExportFile,
        idx: u32,
        ws: Seq<Seq<u8>>,
        r: Result<ExprPtr, ParseErrorKind>,
    ) -> bool {
        match fields_of(old.lens(), ws, 2, seq![Field::Info, Field::Name, Field::Expr, Field::Expr]) {
            Err(k) => r == Err::<ExprPtr, ParseErrorKind>(k),
            Ok(f) => if idx != old.lens().exprs {
                r == Err::<ExprPtr, ParseErrorKind>(ParseErrorKind::WrongIndex)
            } else {
                &&& r is Ok
                &&& self.stores().has_expr(r.unwrap())
                &&& self.stores().term(r.unwrap()) == Term::Pi(
                    old.stores().name(ptr(f[1])),
                    Box::new(old.stores().term(ptr(f[2]))),
                    Box::new(old.stores().term(ptr(f[3]))),
                )
            },
        }
    }

    /// `#EP info name ty body`: interns a function type, which is to get the
    /// handle `idx`. The mark of the binder is read and dropped.
    pub fn parse_ep(&mut self, idx: u32, ws: &Vec<Vec<u8>>) -> (r: Result<ExprPtr, ParseErrorKind>)
        requires
            old(self).wf(),
        ensures
            final(self).grown(old(self)),
            final(self).ep_line(old(self), idx, views(ws@), r),
    {
        proof {
            self.lemma_grown_refl();
        }
        let kinds = vec![Field::Info, Field::Name, Field::Expr, Field::Expr];
        assert(kinds@ =~= seq![Field::Info, Field::Name, Field::Expr, Field::Expr]);
        let f = self.read_fields(ws, 2, &kinds)?;
        if idx as usize != exprs_len(&self.exprs) {
            return Err(ParseErrorKind::WrongIndex);
        }
        let name: NamePtr = Ptr::from(f[1] as usize);
        let tipo: ExprPtr = Ptr::from(f[2] as usize);
        let body: ExprPtr = Ptr::from(f[3] as usize);
        Ok(self.pi(name, tipo, body))
    }

    /// What a line `#EZ` does to the environment `old`, which becomes `self`, and
    /// what is returned for it.
    pub open spec fn ez_line(
        &self,
        old: &ExportFile,
        idx: u32,
        ws: Seq<Seq<u8>>,
        r: Result<ExprPtr, ParseErrorKind>,
    ) -> bool {
        match fields_of(old.lens(), ws, 2, seq![Field::Name, Field::Expr, Field::Expr, Field::Expr]) {
            Err(k) => r == Err::<ExprPtr, ParseErrorKind>(k),
            Ok(f) => if idx != old.lens().exprs {
                r == Err::<ExprPtr, ParseErrorKind>(ParseErrorKind::WrongIndex)
            } else {
                &&& r is Ok
                &&& self.stores().has_expr(r.unwrap())
                &&& self.stores().term(r.unwrap()) == Term::Let(
                    old.stores().name(ptr(f[0])),
                    Box::new(old.stores().term(ptr(f[1]))),
                    Box::new(old.stores().term(ptr(f[2]))),
                    Box::new(old.stores().term(ptr(f[3]))),
                )
            },
        }
    }

    /// `#EZ name ty val body`: interns a `Let`, which is to get the handle `idx`.
    pub fn parse_ez(&mut self, idx: u32, ws: &Vec<Vec<u8>>) -> (r: Result<ExprPtr, ParseErrorKind>)
        requires
            old(self).wf(),
        ensures
            final(self).grown(old(self)),
            final(self).ez_line(old(self), idx, views(ws@), r),
    {
        proof {
            self.lemma_grown_refl();
        }
        let kinds = vec![Field::Name, Field::Expr, Field::Expr, Field::Expr];
        assert(kinds@ =~= seq![Field::Name, Field::Expr, Field::Expr, Field::Expr]);
        let f = self.read_fields(ws, 2, &kinds)?;
        if idx as usize != exprs_len(&self.exprs) {
            return Err(ParseErrorKind::WrongIndex);
        }
        let name: NamePtr = Ptr::from(f[0] as usize);
        let tipo: ExprPtr = Ptr::from(f[1] as usize);
        let val: ExprPtr = Ptr::from(f[2] as usize);
        let body: ExprPtr = Ptr::from(f[3] as usize);
        Ok(self.mk_let(name, tipo, val, body))
    }

    /// What a line `#EJ` does to the environment `old`, which becomes `self`, and
    /// what is returned for it.
    pub open spec fn ej_line(
        &self,
        old: &ExportFile,
        idx: u32,
        ws: Seq<Seq<u8>>,
        r: Result<ExprPtr, ParseErrorKind>,
    ) -> bool {
        match fields_of(old.lens(), ws, 2, seq![Field::Name, Field::U32, Field::Expr]) {
            Err(k) => r == Err::<ExprPtr, ParseErrorKind>(k),
            Ok(f) => if idx != old.lens().exprs {
                r == Err::<ExprPtr, ParseErrorKind>(ParseErrorKind::WrongIndex)
            } else {
                &&& r is Ok
                &&& self.stores().has_expr(r.unwrap())
                &&& self.stores().term(r.unwrap()) == Term::Proj(
                    old.stores().name(ptr(f[0])),
                    f[1] as u32,
                    Box::new(old.stores().term(ptr(f[2]))),
                )
            },
        }
    }

    /// `#EJ name field of`: interns the projection of the field `field` of `of`,
    /// which is to get the handle `idx`.
    pub fn parse_ej(&mut self, idx: u32, ws: &Vec<Vec<u8>>) -> (r: Result<ExprPtr, ParseErrorKind>)
        requires
            old(self).wf(),
        ensures
            final(self).grown(old(self)),
            final(self).ej_line(old(self), idx, views(ws@), r),
    {
        proof {
            self.lemma_grown_refl();
        }
        let kinds = vec![Field::Name, Field::U32, Field::Expr];
        assert(kinds@ =~= seq![Field::Name, Field::U32, Field::Expr]);
        let f = self.read_fields(ws, 2, &kinds)?;
        if idx as usize != exprs_len(&self.exprs) {
            return Err(ParseErrorKind::WrongIndex);
        }
        let name: NamePtr = Ptr::from(f[0] as usize);
        let structure: ExprPtr = Ptr::from(f[2] as usize);
        Ok(self.proj(name, f[1] as u32, structure))
    }

    /// What a line `#ELN` does to the environment `old`, which becomes `self`,
    /// and what is returned for it.
    pub open spec fn eln_line(
        &self,
        old: &ExportFile,
        idx: u32,
        ws: Seq<Seq<u8>>,
        r: Result<ExprPtr, ParseErrorKind>,
    ) -> bool {
        match fields_of(old.lens(), ws, 2, seq![Field::U128]) {
            Err(k) => r == Err::<ExprPtr, ParseErrorKind>(k),
            Ok(f) => if idx != old.lens().exprs {
                r == Err::<ExprPtr, ParseErrorKind>(ParseErrorKind::WrongIndex)
            } else {
                &&& r is Ok
                &&& self.stores().has_expr(r.unwrap())
                &&& self.stores().term(r.unwrap()) == Term::NatLit(f[0] as u128)
            },
        }
    }

    /// `#ELN n`: interns the literal of the natural number `n`, which is to get
    /// the handle `idx`.
    pub fn parse_eln(&mut self, idx: u32, ws: &Vec<Vec<u8>>) -> (r: Result<ExprPtr, ParseErrorKind>)
        requires
            old(self).wf(),
        ensures
            final(self).grown(old(self)),
            final(self).eln_line(old(self), idx, views(ws@), r),
    {
        proof {
            self.lemma_grown_refl();
        }
        let kinds = vec![Field::U128];
        assert(kinds@ =~= seq![Field::U128]);
        let f = self.read_fields(ws, 2, &kinds)?;
        if idx as usize != exprs_len(&self.exprs) {
            return Err(ParseErrorKind::WrongIndex);
        }
        Ok(self.nat_lit(f[0]))
    }

    /// Reads the words from `at` to the end of the line as fields of one
    /// kind.
    pub fn read_rest(&self, ws: &Vec<Vec<u8>>, at: usize, kind: Field) -> (r: Result<
        Vec<u128>,
        ParseErrorKind,
    >)
        ensures
            match fields_of(self.lens(), views(ws@), at as int, rest_of(views(ws@), at as int, kind)) {
                Ok(f) => r is Ok && f.len() == rest_len(views(ws@), at as int) && r.unwrap()@.len()
                    == f.len() && forall|i: int|
                    0 <= i < f.len() ==> #[trigger] r.unwrap()@[i] == f[i] && field_value(
                        self.lens(),
                        views(ws@)[at + i],
                        kind,
                    ) == Ok::<nat, ParseErrorKind>(f[i]),
                Err(k) => r == Err::<Vec<u128>, ParseErrorKind>(k),
            },
    {
        let n = if at <= ws.len() {
            ws.len() - at
        } else {
            0
        };
        let kinds = repeat(kind, n);
        self.read_fields(ws, at, &kinds)
    }

    /// Reads `count` words from `at` on as fields of one kind.
    pub fn read_run(&self, ws: &Vec<Vec<u8>>, at: usize, count: usize, kind: Field) -> (r: Result<
        Vec<u128>,
        ParseErrorKind,
    >)
        ensures
            match fields_of(self.lens(), views(ws@), at as int, run_of(views(ws@), count as nat, kind)) {
                Ok(f) => r is Ok && f.len() == count && (count > 0 ==> at + count <= ws@.len())
                    && r.unwrap()@.len() == f.len() && forall|i: int|
                    0 <= i < f.len() ==> #[trigger] r.unwrap()@[i] == f[i] && field_value(
                        self.lens(),
                        views(ws@)[at + i],
                        kind,
                    ) == Ok::<nat, ParseErrorKind>(f[i]),
                Err(k) => r == Err::<Vec<u128>, ParseErrorKind>(k),
            },
    {
        let n = if count <= ws.len() {
            count
        } else {
            ws.len() + 1
        };
        let kinds = repeat(kind, n);
        self.read_fields(ws, at, &kinds)
    }

    /// The level parameters of a declaration: the words from `at` to the
    /// end of the line name them, each was interned as a level, and none is
    /// listed twice.
    pub fn parse_uparams(&mut self, ws: &Vec<Vec<u8>>, at: usize) -> (r: Result<
        UparamsPtr,
        ParseErrorKind,
    >)
        requires
            old(self).wf(),
        ensures
            final(self).grown(old(self)),
            match fields_of(
                old(self).lens(),
                views(ws@),
                at as int,
                rest_of(views(ws@), at as int, Field::Name),
            ) {
                Err(k) => r == Err::<UparamsPtr, ParseErrorKind>(k),
                Ok(g) => match r {
                    Ok(p) => {
                        &&& final(self).stores().has_uparams(p)
                        &&& final(self).stores().levels(p) == param_levels(old(self).stores(), g)
                        &&& all_differ(g)
                        &&& params_known(old(self).stores(), g)
                    },
                    Err(k) => params_refused(old(self).stores(), g, k),
                },
            },
    {
        proof {
            self.lemma_grown_refl();
            reveal(ExportFile::wf);
        }
        let names = self.read_rest(ws, at, Field::Name)?;
        let ghost st = self.stores();
        let ghost g = fields_of(
            self.lens(),
            views(ws@),
            at as int,
            rest_of(views(ws@), at as int, Field::Name),
        ).unwrap();
        assert forall|j: int| 0 <= j < g.len() implies #[trigger] names@[j] == g[j] && g[j]
            < st.names.len() by {
            let x = names@[j];
            assert(x == g[j]);
            assert(field_value(self.lens(), views(ws@)[at + j], Field::Name) == Ok::<
                nat,
                ParseErrorKind,
            >(g[j]));
        }
        assert forall|j: int| 0 <= j < g.len() implies #[trigger] g[j] < st.names.len() && g[j]
            <= u32::MAX by {
            assert(names@[j] == g[j]);
            assert(field_value(self.lens(), views(ws@)[at + j], Field::Name) == Ok::<
                nat,
                ParseErrorKind,
            >(g[j]));
        }
        let mut universes: Vec<UniversePtr> = Vec::new();
        let mut i: usize = 0;
        while i < names.len()
            invariant
                i <= names.len(),
                *self == *old(self),
                self.wf(),
                st == self.stores(),
                st.wf(),
                names@.len() == g.len(),
                forall|j: int| 0 <= j < g.len() ==> #[trigger] names@[j] == g[j] && g[j] < st.names.len(),
                forall|j: int| 0 <= j < g.len() ==> #[trigger] g[j] < st.names.len() && g[j] <= u32::MAX,
                universes@.len() == i,
                forall|j: int|
                    0 <= j < i ==> st.has_universe(#[trigger] universes@[j]) && st.level(
                        universes@[j],
                    ) == Level::Param(st.name(ptr(g[j]))),
                forall|j: int| 0 <= j < i ==> knows_param(st, ptr(#[trigger] g[j])),
                forall|a: int, b: int| 0 <= a < b < i ==> g[a] != g[b],
                g == fields_of(
                    old(self).lens(),
                    views(ws@),
                    at as int,
                    rest_of(views(ws@), at as int, Field::Name),
                ).unwrap(),
                fields_of(
                    old(self).lens(),
                    views(ws@),
                    at as int,
                    rest_of(views(ws@), at as int, Field::Name),
                ) is Ok,
            decreases names.len() - i,
        {
            assert(names@[i as int] == g[i as int]);
            let name: NamePtr = Ptr::from(names[i] as usize);
            assert(name == ptr::<crate::name::Name>(g[i as int]));
            let hash = digest_of_words(&vec![PARAM_HASH, name.idx as u64]);
            let node = Universe::Param { name, hash };
            let found = universes_get_index_of(&self.universes, &node);
            let universe_ptr: UniversePtr = match found {
                Some(x) => Ptr::from(x),
                None => {
                    proof {
                        if knows_param(st, name) {
                            let u = choose|u: UniversePtr|
                                st.has_universe(u) && st.level(u) == Level::Param(st.name(name));
                            assert(st.universe_ok(st.universes[u.idx as int], u.idx as int));
                            match st.universes[u.idx as int] {
                                Universe::Param { name: n2, .. } => {
                                    st.lemma_name_injective(n2, name);
                                },
                                _ => {},
                            }
                            assert(st.universes[u.idx as int] == node);
                        }
                    }
                    return Err(ParseErrorKind::UnknownParam);
                },
            };
            assert(st.universes[universe_ptr.idx as int] == node);
            assert(st.level(universe_ptr) == Level::Param(st.name(name)));
            let mut k: usize = 0;
            while k < i
                invariant
                    k <= i,
                    i < names.len(),
                    *self == *old(self),
                    self.wf(),
                    st == self.stores(),
                    st.wf(),
                    names@.len() == g.len(),
                    name == ptr::<crate::name::Name>(g[i as int]),
                    st.has_name(name),
                    g == fields_of(
                        old(self).lens(),
                        views(ws@),
                        at as int,
                        rest_of(views(ws@), at as int, Field::Name),
                    ).unwrap(),
                    fields_of(
                        old(self).lens(),
                        views(ws@),
                        at as int,
                        rest_of(views(ws@), at as int, Field::Name),
                    ) is Ok,
                    forall|j: int| 0 <= j < g.len() ==> #[trigger] g[j] < st.names.len() && g[j] <= u32::MAX,
                    st.level(universe_ptr) == Level::Param(st.name(name)),
                    universes@.len() == i,
                    forall|j: int|
                        0 <= j < i ==> st.has_universe(#[trigger] universes@[j]) && st.level(
                            universes@[j],
                        ) == Level::Param(st.name(ptr(g[j]))),
                    forall|j: int| 0 <= j < k ==> (#[trigger] universes@[j]).idx != universe_ptr.idx,
                decreases i - k,
            {
                if universes[k].idx == universe_ptr.idx {
                    proof {
                        assert(universes@[k as int] == universe_ptr);
                        assert(g[k as int] < st.names.len() && g[k as int] <= u32::MAX);
                        assert(g[i as int] < st.names.len() && g[i as int] <= u32::MAX);
                        st.lemma_name_injective(ptr(g[k as int]), name);
                        assert(g[k as int] == g[i as int]);
                        assert(!all_differ(g));
                    }
                    return Err(ParseErrorKind::DuplicateParam);
                }
                k += 1;
            }
            proof {
                assert forall|a: int| 0 <= a < i implies g[a] != g[i as int] by {
                    if g[a] == g[i as int] {
                        st.lemma_level_injective(universes@[a], universe_ptr);
                    }
                }
            }
            universes.push(universe_ptr);
            i += 1;
        }
        proof {
            assert(st.uparams_ok(universes@));
            assert(st.levels_of(universes@) =~= param_levels(st, g));
        }
        Ok(self.alloc_uparams(universes))
    }

    /// The text that the words from `at` to the end of the line spell, each
    /// word a byte in hexadecimal digits and each byte a character.
    pub fn parse_hex_string(&self, ws: &Vec<Vec<u8>>, at: usize) -> (r: Result<
        String,
        ParseErrorKind,
    >)
        ensures
            match fields_of(self.lens(), views(ws@), at as int, rest_of(views(ws@), at as int, Field::Hex)) {
                Err(k) => r == Err::<String, ParseErrorKind>(k),
                Ok(g) => r is Ok && r.unwrap()@ == byte_chars(g),
            },
    {
        let bytes = self.read_rest(ws, at, Field::Hex)?;
        let ghost g = fields_of(
            self.lens(),
            views(ws@),
            at as int,
            rest_of(views(ws@), at as int, Field::Hex),
        ).unwrap();
        assert(fields_of(
            self.lens(),
            views(ws@),
            at as int,
            rest_of(views(ws@), at as int, Field::Hex),
        ) is Ok);
        assert(bytes@.len() == g.len());
        assert forall|j: int| 0 <= j < g.len() implies #[trigger] bytes@[j] == g[j] && g[j]
            <= u8::MAX by {
            let x = bytes@[j];
            assert(x == g[j]);
            assert(field_value(self.lens(), views(ws@)[at + j], Field::Hex) == Ok::<
                nat,
                ParseErrorKind,
            >(g[j]));
        }
        let mut text = String::new();
        let mut i: usize = 0;
        assert(text@ =~= byte_chars(g).take(0));
        while i < bytes.len()
            invariant
                i <= bytes.len(),
                bytes@.len() == g.len(),
                forall|j: int| 0 <= j < g.len() ==> #[trigger] bytes@[j] == g[j] && g[j] <= u8::MAX,
                text@ == byte_chars(g).take(i as int),
            decreases bytes.len() - i,
        {
            assert(bytes@[i as int] == g[i as int]);
            let b = bytes[i] as u8;
            push_char(&mut text, b as char);
            assert(text@ =~= byte_chars(g).take(i + 1));
            i += 1;
        }
        assert(byte_chars(g).take(g.len() as int) =~= byte_chars(g));
        Ok(text)
    }

    /// What a line `#NS` does to the environment `old`, which becomes `self`, and
    /// what is returned for it.
    pub open spec fn ns_line(
        &self,
        old: &ExportFile,
        idx: u32,
        ws: Seq<Seq<u8>>,
        r: Result<NamePtr, ParseErrorKind>,
    ) -> bool {
        match fields_of(old.lens(), ws, 2, seq![Field::Name]) {
            Err(k) => r == Err::<NamePtr, ParseErrorKind>(k),
            Ok(f) => if ws.len() <= 3 {
                r == Err::<NamePtr, ParseErrorKind>(ParseErrorKind::MissingToken)
            } else if !valid_utf8(ws[3]) {
                r == Err::<NamePtr, ParseErrorKind>(ParseErrorKind::BadText)
            } else if idx != old.lens().names {
                r == Err::<NamePtr, ParseErrorKind>(ParseErrorKind::WrongIndex)
            } else {
                &&& r is Ok
                &&& self.stores().has_name(r.unwrap())
                &&& self.stores().name(r.unwrap()) == NameTerm::Str(
                    Box::new(old.stores().name(ptr(f[0]))),
                    decode_utf8(ws[3]),
                )
            },
        }
    }

    /// `#NS pfx str`: interns the name `pfx.str`, which is to get the handle
    /// `idx`.
    pub fn parse_ns(&mut self, idx: u32, ws: &Vec<Vec<u8>>) -> (r: Result<NamePtr, ParseErrorKind>)
        requires
            old(self).wf(),
        ensures
            final(self).grown(old(self)),
            final(self).ns_line(old(self), idx, views(ws@), r),
    {
        proof {
            self.lemma_grown_refl();
        }
        let kinds = vec![Field::Name];
        assert(kinds@ =~= seq![Field::Name]);
        let f = self.read_fields(ws, 2, &kinds)?;
        if ws.len() <= 3 {
            return Err(ParseErrorKind::MissingToken);
        }
        assert(views(ws@)[3] == ws@[3]@);
        let sfx = match text_of(ws[3].clone()) {
            Some(sfx) => sfx,
            None => {
                return Err(ParseErrorKind::BadText);
            },
        };
        if idx as usize != names_len(&self.names) {
            return Err(ParseErrorKind::WrongIndex);
        }
        let pfx: NamePtr = Ptr::from(f[0] as usize);
        Ok(self.mk_str(pfx, sfx))
    }

    /// What a line `#EC` does to the environment `old`, which becomes `self`, and
    /// what is returned for it.
    pub open spec fn ec_line(
        &self,
        old: &ExportFile,
        idx: u32,
        ws: Seq<Seq<u8>>,
        r: Result<ExprPtr, ParseErrorKind>,
    ) -> bool {
        match fields_of(old.lens(), ws, 2, seq![Field::Name]) {
            Err(k) => r == Err::<ExprPtr, ParseErrorKind>(k),
            Ok(f) => match fields_of(
                old.lens(),
                ws,
                3,
                rest_of(ws, 3, Field::Universe),
            ) {
                Err(k) => r == Err::<ExprPtr, ParseErrorKind>(k),
                Ok(g) => if idx != old.lens().exprs {
                    r == Err::<ExprPtr, ParseErrorKind>(ParseErrorKind::WrongIndex)
                } else {
                    &&& r is Ok
                    &&& self.stores().has_expr(r.unwrap())
                    &&& self.stores().term(r.unwrap()) == Term::Const(
                        old.stores().name(ptr(f[0])),
                        handle_levels(old.stores(), g),
                    )
                },
            },
        }
    }

    /// `#EC name u1 u2 ...`: interns the constant `name` at the levels that
    /// follow, which is to get the handle `idx`.
    pub fn parse_ec(&mut self, idx: u32, ws: &Vec<Vec<u8>>) -> (r: Result<ExprPtr, ParseErrorKind>)
        requires
            old(self).wf(),
        ensures
            final(self).grown(old(self)),
            final(self).ec_line(old(self), idx, views(ws@), r),
    {
        proof {
            self.lemma_grown_refl();
        }
        let kinds = vec![Field::Name];
        assert(kinds@ =~= seq![Field::Name]);
        let f = self.read_fields(ws, 2, &kinds)?;
        let list = self.read_rest(ws, 3, Field::Universe)?;
        let ghost g = fields_of(
            self.lens(),
            views(ws@),
            3,
            rest_of(views(ws@), 3, Field::Universe),
        ).unwrap();
        let ghost st = self.stores();
        let mut universes: Vec<UniversePtr> = Vec::new();
        let mut i: usize = 0;
        assert forall|j: int| 0 <= j < g.len() implies #[trigger] list@[j] == g[j] && g[j]
            < st.universes.len() && g[j] <= u32::MAX by {
            let x = list@[j];
            assert(x == g[j]);
            assert(field_value(self.lens(), views(ws@)[3 + j], Field::Universe) == Ok::<
                nat,
                ParseErrorKind,
            >(g[j]));
        }
        while i < list.len()
            invariant
                i <= list.len(),
                list@.len() == g.len(),
                forall|j: int|
                    0 <= j < g.len() ==> #[trigger] list@[j] == g[j] && g[j] < st.universes.len()
                        && g[j] <= u32::MAX,
                universes@.len() == i,
                forall|j: int| 0 <= j < i ==> #[trigger] universes@[j] == ptr::<Universe>(g[j]),
            decreases list.len() - i,
        {
            assert(list@[i as int] == g[i as int]);
            universes.push(Ptr::from(list[i] as usize));
            i += 1;
        }
        proof {
            assert forall|j: int| 0 <= j < universes@.len() implies st.has_universe(
                #[trigger] universes@[j],
            ) by {
                assert(list@[j] == g[j]);
            }
            assert(st.levels_of(universes@) =~= handle_levels(st, g));
        }
        let universes = self.alloc_uparams(universes);
        if idx as usize != exprs_len(&self.exprs) {
            return Err(ParseErrorKind::WrongIndex);
        }
        let name: NamePtr = Ptr::from(f[0] as usize);
        Ok(self.mk_const(name, universes))
    }

    /// What a line `#ELS` does to the environment `old`, which becomes `self`,
    /// and what is returned for it.
    pub open spec fn els_line(
        &self,
        old: &ExportFile,
        idx: u32,
        ws: Seq<Seq<u8>>,
        r: Result<ExprPtr, ParseErrorKind>,
    ) -> bool {
        match fields_of(old.lens(), ws, 2, rest_of(ws, 2, Field::Hex)) {
            Err(k) => r == Err::<ExprPtr, ParseErrorKind>(k),
            Ok(g) => if idx != old.lens().exprs {
                r == Err::<ExprPtr, ParseErrorKind>(ParseErrorKind::WrongIndex)
            } else {
                &&& r is Ok
                &&& self.stores().has_expr(r.unwrap())
                &&& self.stores().term(r.unwrap()) == Term::StrLit(byte_chars(g))
            },
        }
    }

    /// `#ELS b1 b2 ...`: interns the literal of the string whose characters
    /// are the bytes that follow, which is to get the handle `idx`.
    pub fn parse_els(&mut self, idx: u32, ws: &Vec<Vec<u8>>) -> (r: Result<
        ExprPtr,
        ParseErrorKind,
    >)
        requires
            old(self).wf(),
        ensures
            final(self).grown(old(self)),
            final(self).els_line(old(self), idx, views(ws@), r),
    {
        proof {
            self.lemma_grown_refl();
        }
        let text = self.parse_hex_string(ws, 2)?;
        if idx as usize != exprs_len(&self.exprs) {
            return Err(ParseErrorKind::WrongIndex);
        }
        Ok(self.str_lit(text))
    }

    /// Whether `name` names a constructor.
    pub fn is_constructor(&self, name: NamePtr) -> (r: bool)
        requires
            self.wf(),
            self.stores().has_name(name),
        ensures
            r == (self.decls().contains_key(self.stores().name(name)) && self.decls()[self.stores().name(
                name,
            )].shape is Constructor),
    {
        match self.read_declar(name) {
            Some(Declar::Constructor { .. }) => true,
            _ => false,
        }
    }

    /// Whether `name` names an inductive type.
    pub fn is_inductive(&self, name: NamePtr) -> (r: bool)
        requires
            self.wf(),
            self.stores().has_name(name),
        ensures
            r == (self.decls().contains_key(self.stores().name(name)) && self.decls()[self.stores().name(
                name,
            )].shape is Inductive),
    {
        match self.read_declar(name) {
            Some(Declar::Inductive { .. }) => true,
            _ => false,
        }
    }

    /// What a line `#RR` does to the environment `old`, which becomes `self`, and
    /// what is returned for it.
    pub open spec fn rr_line(
        &self,
        old: &ExportFile,
        idx: u32,
        ws: Seq<Seq<u8>>,
        r: Result<RecRulePtr, ParseErrorKind>,
    ) -> bool {
        match fields_of(
            old.lens(),
            ws,
            2,
            seq![Field::Name, Field::U32, Field::Expr],
        ) {
            Err(k) => r == Err::<RecRulePtr, ParseErrorKind>(k),
            Ok(f) => if !(old.decls().contains_key(old.stores().name(ptr(f[0])))
                && old.decls()[old.stores().name(ptr(f[0]))].shape is Constructor) {
                r == Err::<RecRulePtr, ParseErrorKind>(ParseErrorKind::UnknownConstructor)
            } else if idx != old.lens().rules {
                r == Err::<RecRulePtr, ParseErrorKind>(ParseErrorKind::WrongIndex)
            } else {
                &&& r is Ok
                &&& r.unwrap().idx < rec_rule_items(self.rec_rules).len()
                &&& rec_rule_items(self.rec_rules)[r.unwrap().idx as int].ctor_name
                    == ptr::<crate::name::Name>(f[0])
                &&& rec_rule_items(self.rec_rules)[r.unwrap().idx as int].num_param
                    == f[1]
                &&& rec_rule_items(self.rec_rules)[r.unwrap().idx as int].val == ptr::<
                    crate::expr::Expr,
                >(f[2])
            },
        }
    }

    /// `#RR ctor num_param val`: interns the recursor rule of the
    /// constructor `ctor`, which is to get the handle `idx`.
    pub fn parse_rr(&mut self, idx: u32, ws: &Vec<Vec<u8>>) -> (r: Result<
        RecRulePtr,
        ParseErrorKind,
    >)
        requires
            old(self).wf(),
        ensures
            final(self).grown(old(self)),
            final(self).rr_line(old(self), idx, views(ws@), r),
    {
        proof {
            self.lemma_grown_refl();
        }
        let kinds = vec![Field::Name, Field::U32, Field::Expr];
        assert(kinds@ =~= seq![Field::Name, Field::U32, Field::Expr]);
        let f = self.read_fields(ws, 2, &kinds)?;
        let ctor_name: NamePtr = Ptr::from(f[0] as usize);
        if !self.is_constructor(ctor_name) {
            return Err(ParseErrorKind::UnknownConstructor);
        }
        if idx as usize != rec_rules_len(&self.rec_rules) {
            return Err(ParseErrorKind::WrongIndex);
        }
        let val: ExprPtr = Ptr::from(f[2] as usize);
        Ok(self.rec_rule(ctor_name, f[1] as u32, val))
    }

    /// What a line `#AX` does to the environment `old`, which becomes `self`, and
    /// what is returned for it.
    pub open spec fn axiom_line(
        &self,
        old: &ExportFile,
        ws: Seq<Seq<u8>>,
        r: Result<(), ParseErrorKind>,
    ) -> bool {
        match fields_of(old.lens(), ws, 1, seq![Field::Name, Field::Expr]) {
            Err(k) => r == Err::<(), ParseErrorKind>(k),
            Ok(f) => match fields_of(
                old.lens(),
                ws,
                3,
                rest_of(ws, 3, Field::Name),
            ) {
                Err(k) => r == Err::<(), ParseErrorKind>(k),
                Ok(g) => match r {
                    Ok(_) => {
                        &&& all_differ(g)
                        &&& params_known(old.stores(), g)
                        &&& exists|ups: UparamsPtr| #[trigger]
                            self.declared_as(
                                old,
                                DeclarNode::Axiom { name: ptr(f[0]), uparams: ups, ty: ptr(f[1]) },
                                g,
                            )
                        &&& self.decls() == old.decls().insert(
                            old.stores().name(ptr(f[0])),
                            Decl {
                                kind: Kind::Axiom,
                                uparams: param_levels(old.stores(), g),
                                ty: old.stores().term(ptr(f[1])),
                                val: None,
                                shape: Shape::Plain,
                            },
                        )
                    },
                    Err(k) => params_refused(old.stores(), g, k),
                },
            },
        }
    }

    /// `#AX name ty params...`: declares an axiom.
    pub fn parse_axiom(&mut self, ws: &Vec<Vec<u8>>) -> (r: Result<(), ParseErrorKind>)
        requires
            old(self).wf(),
        ensures
            final(self).wf(),
            final(self).stores().keeps(old(self).stores()),
            final(self).kstate() == old(self).kstate(),
            r is Err ==> final(self).decls() == old(self).decls() && declar_entries(
                final(self).declars,
            ) == declar_entries(old(self).declars),
            final(self).axiom_line(old(self), views(ws@), r),
    {
        proof {
            self.lemma_grown_refl();
        }
        let kinds = vec![Field::Name, Field::Expr];
        assert(kinds@ =~= seq![Field::Name, Field::Expr]);
        let f = self.read_fields(ws, 1, &kinds)?;
        let name: NamePtr = Ptr::from(f[0] as usize);
        let ty: ExprPtr = Ptr::from(f[1] as usize);
        let uparams = self.parse_uparams(ws, 3)?;
        self.add_declar(Declar::Axiom { name, uparams, ty });
        proof {
            let g = fields_of(
                old(self).lens(),
                views(ws@),
                3,
                rest_of(views(ws@), 3, Field::Name),
            ).unwrap();
            assert(self.declared_as(old(self), DeclarNode::Axiom { name, uparams, ty }, g));
        }
        Ok(())
    }

    /// What a line `#QUOT` does to the environment `old`, which becomes `self`,
    /// and what is returned for it.
    pub open spec fn quot_line(
        &self,
        old: &ExportFile,
        ws: Seq<Seq<u8>>,
        r: Result<(), ParseErrorKind>,
    ) -> bool {
        match fields_of(old.lens(), ws, 1, seq![Field::Name, Field::Expr]) {
            Err(k) => r == Err::<(), ParseErrorKind>(k),
            Ok(f) => match fields_of(
                old.lens(),
                ws,
                3,
                rest_of(ws, 3, Field::Name),
            ) {
                Err(k) => r == Err::<(), ParseErrorKind>(k),
                Ok(g) => match r {
                    Ok(_) => {
                        &&& all_differ(g)
                        &&& params_known(old.stores(), g)
                        &&& exists|ups: UparamsPtr| #[trigger]
                            self.declared_as(
                                old,
                                DeclarNode::Quot { name: ptr(f[0]), uparams: ups, ty: ptr(f[1]) },
                                g,
                            )
                        &&& self.decls() == old.decls().insert(
                            old.stores().name(ptr(f[0])),
                            Decl {
                                kind: Kind::Quot,
                                uparams: param_levels(old.stores(), g),
                                ty: old.stores().term(ptr(f[1])),
                                val: None,
                                shape: Shape::Plain,
                            },
                        )
                    },
                    Err(k) => params_refused(old.stores(), g, k),
                },
            },
        }
    }

    /// `#QUOT name ty params...`: declares a primitive of quotients.
    pub fn parse_quot(&mut self, ws: &Vec<Vec<u8>>) -> (r: Result<(), ParseErrorKind>)
        requires
            old(self).wf(),
        ensures
            final(self).wf(),
            final(self).stores().keeps(old(self).stores()),
            final(self).kstate() == old(self).kstate(),
            r is Err ==> final(self).decls() == old(self).decls() && declar_entries(
                final(self).declars,
            ) == declar_entries(old(self).declars),
            final(self).quot_line(old(self), views(ws@), r),
    {
        proof {
            self.lemma_grown_refl();
        }
        let kinds = vec![Field::Name, Field::Expr];
        assert(kinds@ =~= seq![Field::Name, Field::Expr]);
        let f = self.read_fields(ws, 1, &kinds)?;
        let name: NamePtr = Ptr::from(f[0] as usize);
        let ty: ExprPtr = Ptr::from(f[1] as usize);
        let uparams = self.parse_uparams(ws, 3)?;
        self.add_declar(Declar::Quot { name, uparams, ty });
        proof {
            let g = fields_of(
                old(self).lens(),
                views(ws@),
                3,
                rest_of(views(ws@), 3, Field::Name),
            ).unwrap();
            assert(self.declared_as(old(self), DeclarNode::Quot { name, uparams, ty }, g));
        }
        Ok(())
    }

    /// What a line `#OPAQ` does to the environment `old`, which becomes `self`,
    /// and what is returned for it.
    pub open spec fn opaq_line(
        &self,
        old: &ExportFile,
        ws: Seq<Seq<u8>>,
        r: Result<(), ParseErrorKind>,
    ) -> bool {
        match fields_of(old.lens(), ws, 1, seq![Field::Name, Field::Expr, Field::Expr]) {
            Err(k) => r == Err::<(), ParseErrorKind>(k),
            Ok(f) => match fields_of(
                old.lens(),
                ws,
                4,
                rest_of(ws, 4, Field::Name),
            ) {
                Err(k) => r == Err::<(), ParseErrorKind>(k),
                Ok(g) => match r {
                    Ok(_) => {
                        &&& all_differ(g)
                        &&& params_known(old.stores(), g)
                        &&& exists|ups: UparamsPtr| #[trigger]
                            self.declared_as(
                                old,
                                DeclarNode::Opaq { name: ptr(f[0]), uparams: ups, ty: ptr(f[1]), val: ptr(f[2]) },
                                g,
                            )
                        &&& self.decls() == old.decls().insert(
                            old.stores().name(ptr(f[0])),
                            Decl {
                                kind: Kind::Opaq,
                                uparams: param_levels(old.stores(), g),
                                ty: old.stores().term(ptr(f[1])),
                                val: Some(old.stores().term(ptr(f[2]))),
                                shape: Shape::Plain,
                            },
                        )
                    },
                    Err(k) => params_refused(old.stores(), g, k),
                },
            },
        }
    }

    /// `#OPAQ name ty val params...`: declares an opaque constant.
    pub fn parse_opaq(&mut self, ws: &Vec<Vec<u8>>) -> (r: Result<(), ParseErrorKind>)
        requires
            old(self).wf(),
        ensures
            final(self).wf(),
            final(self).stores().keeps(old(self).stores()),
            final(self).kstate() == old(self).kstate(),
            r is Err ==> final(self).decls() == old(self).decls() && declar_entries(
                final(self).declars,
            ) == declar_entries(old(self).declars),
            final(self).opaq_line(old(self), views(ws@), r),
    {
        proof {
            self.lemma_grown_refl();
        }
        let kinds = vec![Field::Name, Field::Expr, Field::Expr];
        assert(kinds@ =~= seq![Field::Name, Field::Expr, Field::Expr]);
        let f = self.read_fields(ws, 1, &kinds)?;
        let name: NamePtr = Ptr::from(f[0] as usize);
        let ty: ExprPtr = Ptr::from(f[1] as usize);
        let val: ExprPtr = Ptr::from(f[2] as usize);
        let uparams = self.parse_uparams(ws, 4)?;
        self.add_declar(Declar::Opaq { name, uparams, ty, val });
        proof {
            let g = fields_of(
                old(self).lens(),
                views(ws@),
                4,
                rest_of(views(ws@), 4, Field::Name),
            ).unwrap();
            assert(self.declared_as(old(self), DeclarNode::Opaq { name, uparams, ty, val }, g));
        }
        Ok(())
    }

    /// What a line `#THM` does to the environment `old`, which becomes `self`,
    /// and what is returned for it.
    pub open spec fn theorem_line(
        &self,
        old: &ExportFile,
        ws: Seq<Seq<u8>>,
        r: Result<(), ParseErrorKind>,
    ) -> bool {
        match fields_of(old.lens(), ws, 1, seq![Field::Name, Field::Expr, Field::Expr]) {
            Err(k) => r == Err::<(), ParseErrorKind>(k),
            Ok(f) => match fields_of(
                old.lens(),
                ws,
                4,
                rest_of(ws, 4, Field::Name),
            ) {
                Err(k) => r == Err::<(), ParseErrorKind>(k),
                Ok(g) => match r {
                    Ok(_) => {
                        &&& all_differ(g)
                        &&& params_known(old.stores(), g)
                        &&& exists|ups: UparamsPtr| #[trigger]
                            self.declared_as(
                                old,
                                DeclarNode::Theorem { name: ptr(f[0]), uparams: ups, ty: ptr(f[1]), val: ptr(f[2]) },
                                g,
                            )
                        &&& self.decls() == old.decls().insert(
                            old.stores().name(ptr(f[0])),
                            Decl {
                                kind: Kind::Theorem,
                                uparams: param_levels(old.stores(), g),
                                ty: old.stores().term(ptr(f[1])),
                                val: Some(old.stores().term(ptr(f[2]))),
                                shape: Shape::Plain,
                            },
                        )
                    },
                    Err(k) => params_refused(old.stores(), g, k),
                },
            },
        }
    }

    /// `#THM name ty val params...`: declares a theorem.
    pub fn parse_theorem(&mut self, ws: &Vec<Vec<u8>>) -> (r: Result<(), ParseErrorKind>)
        requires
            old(self).wf(),
        ensures
            final(self).wf(),
            final(self).stores().keeps(old(self).stores()),
            final(self).kstate() == old(self).kstate(),
            r is Err ==> final(self).decls() == old(self).decls() && declar_entries(
                final(self).declars,
            ) == declar_entries(old(self).declars),
            final(self).theorem_line(old(self), views(ws@), r),
    {
        proof {
            self.lemma_grown_refl();
        }
        let kinds = vec![Field::Name, Field::Expr, Field::Expr];
        assert(kinds@ =~= seq![Field::Name, Field::Expr, Field::Expr]);
        let f = self.read_fields(ws, 1, &kinds)?;
        let name: NamePtr = Ptr::from(f[0] as usize);
        let ty: ExprPtr = Ptr::from(f[1] as usize);
        let val: ExprPtr = Ptr::from(f[2] as usize);
        let uparams = self.parse_uparams(ws, 4)?;
        self.add_declar(Declar::Theorem { name, uparams, ty, val });
        proof {
            let g = fields_of(
                old(self).lens(),
                views(ws@),
                4,
                rest_of(views(ws@), 4, Field::Name),
            ).unwrap();
            assert(self.declared_as(old(self), DeclarNode::Theorem { name, uparams, ty, val }, g));
        }
        Ok(())
    }

    /// Reads the reducibility hint at `at` and returns where the words after
    /// it begin. The hint is read and dropped.
    pub fn parse_hint(&self, ws: &Vec<Vec<u8>>, at: usize) -> (r: Result<usize, ParseErrorKind>)
        ensures
            match hint_end(self.lens(), views(ws@), at as int) {
                Ok(n) => r is Ok && r.unwrap() == n,
                Err(k) => r == Err::<usize, ParseErrorKind>(k),
            },
    {
        proof {
            reveal_strlit("O");
            reveal_strlit("A");
            reveal_strlit("R");
        }
        if at >= ws.len() {
            return Err(ParseErrorKind::MissingToken);
        }
        assert(views(ws@)[at as int] == ws@[at as int]@);
        if word_is(&ws[at], "O") || word_is(&ws[at], "A") {
            Ok(at + 1)
        } else if word_is(&ws[at], "R") {
            let kinds = vec![Field::U32];
            assert(kinds@ =~= seq![Field::U32]);
            self.read_fields(ws, at + 1, &kinds)?;
            Ok(at + 2)
        } else {
            Err(ParseErrorKind::BadFlag)
        }
    }

    /// What a line `#DEF` does to the environment `old`, which becomes `self`,
    /// and what is returned for it.
    pub open spec fn def_line(
        &self,
        old: &ExportFile,
        ws: Seq<Seq<u8>>,
        r: Result<(), ParseErrorKind>,
    ) -> bool {
        match fields_of(
            old.lens(),
            ws,
            1,
            seq![Field::Name, Field::Expr, Field::Expr],
        ) {
            Err(k) => r == Err::<(), ParseErrorKind>(k),
            Ok(f) => match hint_end(old.lens(), ws, 4) {
                Err(k) => r == Err::<(), ParseErrorKind>(k),
                Ok(at) => match fields_of(
                    old.lens(),
                    ws,
                    at,
                    rest_of(ws, at, Field::Name),
                ) {
                    Err(k) => r == Err::<(), ParseErrorKind>(k),
                    Ok(g) => match r {
                        Ok(_) => {
                            &&& all_differ(g)
                            &&& params_known(old.stores(), g)
                            &&& exists|ups: UparamsPtr| #[trigger]
                                self.declared_as(
                                    old,
                                    DeclarNode::Definition { name: ptr(f[0]), uparams: ups, ty: ptr(f[1]), val: ptr(f[2]) },
                                    g,
                                )
                            &&& self.decls() == old.decls().insert(
                                old.stores().name(ptr(f[0])),
                                Decl {
                                    kind: Kind::Definition,
                                    uparams: param_levels(old.stores(), g),
                                    ty: old.stores().term(ptr(f[1])),
                                    val: Some(old.stores().term(ptr(f[2]))),
                                    shape: Shape::Plain,
                                },
                            )
                        },
                        Err(k) => params_refused(old.stores(), g, k),
                    },
                },
            },
        }
    }

    /// `#DEF name ty val hint params...`: declares a definition.
    pub fn parse_def(&mut self, ws: &Vec<Vec<u8>>) -> (r: Result<(), ParseErrorKind>)
        requires
            old(self).wf(),
        ensures
            final(self).wf(),
            final(self).stores().keeps(old(self).stores()),
            final(self).kstate() == old(self).kstate(),
            r is Err ==> final(self).decls() == old(self).decls() && declar_entries(
                final(self).declars,
            ) == declar_entries(old(self).declars),
            final(self).def_line(old(self), views(ws@), r),
    {
        proof {
            self.lemma_grown_refl();
        }
        let kinds = vec![Field::Name, Field::Expr, Field::Expr];
        assert(kinds@ =~= seq![Field::Name, Field::Expr, Field::Expr]);
        let f = self.read_fields(ws, 1, &kinds)?;
        let name: NamePtr = Ptr::from(f[0] as usize);
        let ty: ExprPtr = Ptr::from(f[1] as usize);
        let val: ExprPtr = Ptr::from(f[2] as usize);
        let at = self.parse_hint(ws, 4)?;
        let uparams = self.parse_uparams(ws, at)?;
        self.add_declar(Declar::Definition { name, uparams, ty, val });
        proof {
            let g = fields_of(
                old(self).lens(),
                views(ws@),
                at as int,
                rest_of(views(ws@), at as int, Field::Name),
            ).unwrap();
            assert(self.declared_as(old(self), DeclarNode::Definition { name, uparams, ty, val }, g));
        }
        Ok(())
    }

    /// The handles of the names that were read.
    fn name_handles(&self, list: &Vec<u128>) -> (r: Vec<NamePtr>)
        requires
            forall|j: int| 0 <= j < list@.len() ==> #[trigger] list@[j] < self.stores().names.len()
                && list@[j] <= u32::MAX,
        ensures
            r@.len() == list@.len(),
            forall|j: int|
                0 <= j < r@.len() ==> #[trigger] r@[j] == ptr::<crate::name::Name>(list@[j] as nat)
                    && self.stores().has_name(r@[j]),
    {
        let mut out: Vec<NamePtr> = Vec::new();
        let mut i: usize = 0;
        while i < list.len()
            invariant
                i <= list.len(),
                out@.len() == i,
                forall|j: int|
                    0 <= j < list@.len() ==> #[trigger] list@[j] < self.stores().names.len()
                        && list@[j] <= u32::MAX,
                forall|j: int|
                    0 <= j < i ==> #[trigger] out@[j] == ptr::<crate::name::Name>(list@[j] as nat)
                        && self.stores().has_name(out@[j]),
            decreases list.len() - i,
        {
            out.push(Ptr::from(list[i] as usize));
            i += 1;
        }
        out
    }

    /// Whether every name of the list names an inductive type.
    fn names_inductive(&self, list: &Vec<u128>) -> (r: bool)
        requires
            self.wf(),
            forall|j: int| 0 <= j < list@.len() ==> #[trigger] list@[j] < self.stores().names.len()
                && list@[j] <= u32::MAX,
        ensures
            r == all_inductive(
                self.decls(),
                self.stores(),
                Seq::new(list@.len(), |j: int| list@[j] as nat),
            ),
    {
        let ghost a = Seq::new(list@.len(), |j: int| list@[j] as nat);
        let mut i: usize = 0;
        while i < list.len()
            invariant
                i <= list.len(),
                self.wf(),
                a == Seq::new(list@.len(), |j: int| list@[j] as nat),
                forall|j: int|
                    0 <= j < list@.len() ==> #[trigger] list@[j] < self.stores().names.len()
                        && list@[j] <= u32::MAX,
                forall|j: int|
                    0 <= j < i ==> self.decls().contains_key(
                        self.stores().name(ptr(#[trigger] a[j])),
                    ) && self.decls()[self.stores().name(ptr(a[j]))].shape is Inductive,
            decreases list.len() - i,
        {
            assert(a[i as int] == list@[i as int]);
            let ind: NamePtr = Ptr::from(list[i] as usize);
            if !self.is_inductive(ind) {
                assert(ind == ptr::<crate::name::Name>(a[i as int]));
                return false;
            }
            i += 1;
        }
        true
    }

    /// What a line `#CTOR` does to the environment `old`, which becomes `self`,
    /// and what is returned for it.
    pub open spec fn constructor_line(
        &self,
        old: &ExportFile,
        ws: Seq<Seq<u8>>,
        r: Result<(), ParseErrorKind>,
    ) -> bool {
        match fields_of(
            old.lens(),
            ws,
            1,
            seq![Field::Name, Field::Expr, Field::Name, Field::U32, Field::U32, Field::U32],
        ) {
            Err(k) => r == Err::<(), ParseErrorKind>(k),
            Ok(f) => if !all_inductive(old.decls(), old.stores(), seq![f[2]]) {
                r == Err::<(), ParseErrorKind>(ParseErrorKind::UnknownInductive)
            } else {
                match fields_of(
                    old.lens(),
                    ws,
                    7,
                    rest_of(ws, 7, Field::Name),
                ) {
                    Err(k) => r == Err::<(), ParseErrorKind>(k),
                    Ok(g) => match r {
                        Ok(_) => {
                            &&& all_differ(g)
                            &&& params_known(old.stores(), g)
                            &&& exists|ups: UparamsPtr| #[trigger]
                                self.declared_as(
                                    old,
                                    DeclarNode::Constructor { name: ptr(f[0]), uparams: ups, ty: ptr(f[1]), num_params: f[4] as u32, num_fields: f[5] as u32, parent: ptr(f[2]) },
                                    g,
                                )
                            &&& self.decls() == old.decls().insert(
                                old.stores().name(ptr(f[0])),
                                Decl {
                                    kind: Kind::Constructor,
                                    uparams: param_levels(old.stores(), g),
                                    ty: old.stores().term(ptr(f[1])),
                                    val: None,
                                    shape: Shape::Constructor {
                                        num_params: f[4] as u32,
                                        num_fields: f[5] as u32,
                                        parent: old.stores().name(ptr(f[2])),
                                    },
                                },
                            )
                        },
                        Err(k) => params_refused(old.stores(), g, k),
                    },
                }
            },
        }
    }

    /// `#CTOR name ty parent _ num_params num_fields params...`: declares a
    /// constructor of the inductive type `parent`, which is declared.
    pub fn parse_constructor(&mut self, ws: &Vec<Vec<u8>>) -> (r: Result<(), ParseErrorKind>)
        requires
            old(self).wf(),
        ensures
            final(self).wf(),
            final(self).stores().keeps(old(self).stores()),
            final(self).kstate() == old(self).kstate(),
            r is Err ==> final(self).decls() == old(self).decls() && declar_entries(
                final(self).declars,
            ) == declar_entries(old(self).declars),
            final(self).constructor_line(old(self), views(ws@), r),
    {
        proof {
            self.lemma_grown_refl();
        }
        let kinds = vec![Field::Name, Field::Expr, Field::Name, Field::U32, Field::U32, Field::U32];
        assert(kinds@ =~= seq![
            Field::Name,
            Field::Expr,
            Field::Name,
            Field::U32,
            Field::U32,
            Field::U32,
        ]);
        let f = self.read_fields(ws, 1, &kinds)?;
        let name: NamePtr = Ptr::from(f[0] as usize);
        let ty: ExprPtr = Ptr::from(f[1] as usize);
        let parent: NamePtr = Ptr::from(f[2] as usize);
        let ghost one = seq![f@[2] as nat];
        if !self.is_inductive(parent) {
            assert(one[0] == f@[2]);
            return Err(ParseErrorKind::UnknownInductive);
        }
        assert(all_inductive(self.decls(), self.stores(), one));
        let num_params = f[4] as u32;
        let num_fields = f[5] as u32;
        let uparams = self.parse_uparams(ws, 7)?;
        self.add_declar(
            Declar::Constructor { name, uparams, ty, num_params, num_fields, parent },
        );
        proof {
            let g = fields_of(
                old(self).lens(),
                views(ws@),
                7,
                rest_of(views(ws@), 7, Field::Name),
            ).unwrap();
            assert(self.declared_as(old(self), DeclarNode::Constructor { name, uparams, ty, num_params, num_fields, parent }, g));
        }
        Ok(())
    }

    /// What a line `#IND` does to the environment `old`, which becomes `self`,
    /// and what is returned for it.
    pub open spec fn inductive_line(
        &self,
        old: &ExportFile,
        ws: Seq<Seq<u8>>,
        r: Result<(), ParseErrorKind>,
    ) -> bool {
        match fields_of(
            old.lens(),
            ws,
            1,
            seq![
                Field::Name,
                Field::Expr,
                Field::Flag,
                Field::Flag,
                Field::U32,
                Field::U32,
                Field::U32,
                Field::U32,
            ],
        ) {
            Err(k) => r == Err::<(), ParseErrorKind>(k),
            Ok(f) => match fields_of(
                old.lens(),
                ws,
                9,
                run_of(ws, f[7], Field::Name),
            ) {
                Err(k) => r == Err::<(), ParseErrorKind>(k),
                Ok(a) => match fields_of(
                    old.lens(),
                    ws,
                    (9 + a.len()) as int,
                    seq![Field::U32],
                ) {
                    Err(k) => r == Err::<(), ParseErrorKind>(k),
                    Ok(n) => match fields_of(
                        old.lens(),
                        ws,
                        (10 + a.len()) as int,
                        run_of(ws, n[0], Field::Name),
                    ) {
                        Err(k) => r == Err::<(), ParseErrorKind>(k),
                        Ok(c) => match fields_of(
                            old.lens(),
                            ws,
                            (10 + a.len() + c.len()) as int,
                            rest_of(ws, (10 + a.len() + c.len()) as int, Field::Name),
                        ) {
                            Err(k) => r == Err::<(), ParseErrorKind>(k),
                            Ok(g) => match r {
                                Ok(_) => {
                                    &&& all_differ(g)
                                    &&& params_known(old.stores(), g)
                                    &&& exists|ups: UparamsPtr| #[trigger]
                                        self.declared_as(
                                            old,
                                            DeclarNode::Inductive { name: ptr(f[0]), uparams: ups, ty: ptr(f[1]), num_indices: f[6] as u32, all_ctor_names: handle_ptrs(c) },
                                            g,
                                        )
                                    &&& self.decls() == old.decls().insert(
                                        old.stores().name(ptr(f[0])),
                                        Decl {
                                            kind: Kind::Inductive,
                                            uparams: param_levels(old.stores(), g),
                                            ty: old.stores().term(ptr(f[1])),
                                            val: None,
                                            shape: Shape::Inductive {
                                                num_indices: f[6] as u32,
                                                ctors: handle_names(old.stores(), c),
                                            },
                                        },
                                    )
                                },
                                Err(k) => params_refused(old.stores(), g, k),
                            },
                        },
                    },
                },
            },
        }
    }

    /// `#IND name ty _ _ _ _ num_indices n inductives... m ctors...
    /// params...`: declares an inductive type with the `m` constructors
    /// named. The names of the `n` inductive types declared with it are read
    /// and dropped.
    pub fn parse_inductive(&mut self, ws: &Vec<Vec<u8>>) -> (r: Result<(), ParseErrorKind>)
        requires
            old(self).wf(),
        ensures
            final(self).wf(),
            final(self).stores().keeps(old(self).stores()),
            final(self).kstate() == old(self).kstate(),
            r is Err ==> final(self).decls() == old(self).decls() && declar_entries(
                final(self).declars,
            ) == declar_entries(old(self).declars),
            final(self).inductive_line(old(self), views(ws@), r),
    {
        proof {
            self.lemma_grown_refl();
        }
        let kinds = vec![
            Field::Name,
            Field::Expr,
            Field::Flag,
            Field::Flag,
            Field::U32,
            Field::U32,
            Field::U32,
            Field::U32,
        ];
        assert(kinds@ =~= seq![
            Field::Name,
            Field::Expr,
            Field::Flag,
            Field::Flag,
            Field::U32,
            Field::U32,
            Field::U32,
            Field::U32,
        ]);
        let f = self.read_fields(ws, 1, &kinds)?;
        let name: NamePtr = Ptr::from(f[0] as usize);
        let ty: ExprPtr = Ptr::from(f[1] as usize);
        let num_indices = f[6] as u32;
        let num_inductives = f[7] as usize;
        let inductives = self.read_run(ws, 9, num_inductives, Field::Name)?;
        let total = ws.len();
        assert(num_inductives > 0 ==> 9 + num_inductives <= total);
        let at = 9 + inductives.len();
        let one = vec![Field::U32];
        assert(one@ =~= seq![Field::U32]);
        let n = self.read_fields(ws, at, &one)?;
        let num_ctors = n[0] as usize;
        assert(at + 1 <= total);
        let ctors = self.read_run(ws, at + 1, num_ctors, Field::Name)?;
        assert(num_ctors > 0 ==> at + 1 + num_ctors <= total);
        let ghost c = fields_of(
            self.lens(),
            views(ws@),
            at + 1,
            run_of(views(ws@), num_ctors as nat, Field::Name),
        ).unwrap();
        let ghost st = self.stores();
        assert forall|j: int| 0 <= j < ctors@.len() implies #[trigger] ctors@[j]
            < self.stores().names.len() && ctors@[j] <= u32::MAX && ctors@[j] == c[j] by {
            let x = ctors@[j];
            assert(x == c[j]);
            assert(field_value(self.lens(), views(ws@)[at + 1 + j], Field::Name) == Ok::<
                nat,
                ParseErrorKind,
            >(c[j]));
        }
        let all_ctor_names = self.name_handles(&ctors);
        proof {
            assert(st.names_of(all_ctor_names@) =~= handle_names(st, c)) by {
                assert forall|j: int| 0 <= j < c.len() implies st.names_of(all_ctor_names@)[j]
                    == handle_names(st, c)[j] by {
                    assert(all_ctor_names@[j] == ptr::<crate::name::Name>(ctors@[j] as nat));
                    assert(ctors@[j] == c[j]);
                }
            }
        }
        let uparams = self.parse_uparams(ws, at + 1 + ctors.len())?;
        proof {
            assert forall|j: int| 0 <= j < all_ctor_names@.len() implies self.stores().has_name(
                #[trigger] all_ctor_names@[j],
            ) && self.stores().name(all_ctor_names@[j]) == st.name(all_ctor_names@[j]) by {
                assert(st.has_name(all_ctor_names@[j]));
            }
            assert(self.stores().names_of(all_ctor_names@) =~= st.names_of(all_ctor_names@));
        }
        let ghost ctor_ptrs = all_ctor_names@;
        self.add_declar(Declar::Inductive { name, uparams, ty, num_indices, all_ctor_names });
        proof {
            let g = fields_of(
                old(self).lens(),
                views(ws@),
                at + 1 + ctors@.len(),
                rest_of(views(ws@), at + 1 + ctors@.len(), Field::Name),
            ).unwrap();
            assert(ctor_ptrs =~= handle_ptrs(c));
            assert(self.declared_as(
                old(self),
                DeclarNode::Inductive {
                    name,
                    uparams,
                    ty,
                    num_indices,
                    all_ctor_names: ctor_ptrs,
                },
                g,
            ));
        }
        Ok(())
    }

    /// What a line `#REC` does to the environment `old`, which becomes `self`,
    /// and what is returned for it.
    pub open spec fn recursor_line(
        &self,
        old: &ExportFile,
        ws: Seq<Seq<u8>>,
        r: Result<(), ParseErrorKind>,
    ) -> bool {
        match fields_of(
            old.lens(),
            ws,
            1,
            seq![Field::Name, Field::Expr, Field::U32],
        ) {
            Err(k) => r == Err::<(), ParseErrorKind>(k),
            Ok(f) => match fields_of(
                old.lens(),
                ws,
                4,
                run_of(ws, f[2], Field::Name),
            ) {
                Err(k) => r == Err::<(), ParseErrorKind>(k),
                Ok(a) => if !all_inductive(old.decls(), old.stores(), a) {
                    r == Err::<(), ParseErrorKind>(ParseErrorKind::UnknownInductive)
                } else {
                    match fields_of(
                        old.lens(),
                        ws,
                        (4 + a.len()) as int,
                        seq![Field::U32, Field::U32, Field::U32, Field::U32, Field::U32],
                    ) {
                        Err(k) => r == Err::<(), ParseErrorKind>(k),
                        Ok(n) => match fields_of(
                            old.lens(),
                            ws,
                            (9 + a.len()) as int,
                            run_of(ws, n[4], Field::Rule),
                        ) {
                            Err(k) => r == Err::<(), ParseErrorKind>(k),
                            Ok(c) => match fields_of(
                                old.lens(),
                                ws,
                                (9 + a.len() + c.len()) as int,
                                seq![Field::Flag],
                            ) {
                                Err(k) => r == Err::<(), ParseErrorKind>(k),
                                Ok(_) => match fields_of(
                                    old.lens(),
                                    ws,
                                    (10 + a.len() + c.len()) as int,
                                    rest_of(ws, (10 + a.len() + c.len()) as int, Field::Name),
                                ) {
                                    Err(k) => r == Err::<(), ParseErrorKind>(k),
                                    Ok(g) => match r {
                                        Ok(_) => {
                                            &&& all_differ(g)
                                            &&& params_known(old.stores(), g)
                                            &&& exists|ups: UparamsPtr| #[trigger]
                                                self.declared_as(
                                                    old,
                                                    DeclarNode::Recursor { name: ptr(f[0]), uparams: ups, ty: ptr(f[1]) },
                                                    g,
                                                )
                                            &&& self.decls() == old.decls().insert(
                                                old.stores().name(ptr(f[0])),
                                                Decl {
                                                    kind: Kind::Recursor,
                                                    uparams: param_levels(old.stores(), g),
                                                    ty: old.stores().term(ptr(f[1])),
                                                    val: None,
                                                    shape: Shape::Plain,
                                                },
                                            )
                                        },
                                        Err(k) => params_refused(old.stores(), g, k),
                                    },
                                },
                            },
                        },
                    }
                },
            },
        }
    }

    /// `#REC name ty n inductives... _ _ _ _ m rules... _ params...`:
    /// declares a recursor of the `n` inductive types named, which are
    /// declared. Its `m` rules, which are interned, are read and dropped.
    pub fn parse_recursor(&mut self, ws: &Vec<Vec<u8>>) -> (r: Result<(), ParseErrorKind>)
        requires
            old(self).wf(),
        ensures
            final(self).wf(),
            final(self).stores().keeps(old(self).stores()),
            final(self).kstate() == old(self).kstate(),
            r is Err ==> final(self).decls() == old(self).decls() && declar_entries(
                final(self).declars,
            ) == declar_entries(old(self).declars),
            final(self).recursor_line(old(self), views(ws@), r),
    {
        proof {
            self.lemma_grown_refl();
        }
        let kinds = vec![Field::Name, Field::Expr, Field::U32];
        assert(kinds@ =~= seq![Field::Name, Field::Expr, Field::U32]);
        let f = self.read_fields(ws, 1, &kinds)?;
        let name: NamePtr = Ptr::from(f[0] as usize);
        let ty: ExprPtr = Ptr::from(f[1] as usize);
        let num_inductives = f[2] as usize;
        let inductives = self.read_run(ws, 4, num_inductives, Field::Name)?;
        let ghost a = fields_of(
            self.lens(),
            views(ws@),
            4,
            run_of(views(ws@), num_inductives as nat, Field::Name),
        ).unwrap();
        assert forall|j: int| 0 <= j < inductives@.len() implies #[trigger] inductives@[j]
            < self.stores().names.len() && inductives@[j] <= u32::MAX && inductives@[j] == a[j] by {
            let x = inductives@[j];
            assert(x == a[j]);
            assert(field_value(self.lens(), views(ws@)[4 + j], Field::Name) == Ok::<
                nat,
                ParseErrorKind,
            >(a[j]));
        }
        assert(Seq::new(inductives@.len(), |j: int| inductives@[j] as nat) =~= a);
        if !self.names_inductive(&inductives) {
            return Err(ParseErrorKind::UnknownInductive);
        }
        assert(all_inductive(self.decls(), self.stores(), a));
        let total = ws.len();
        assert(num_inductives > 0 ==> 4 + num_inductives <= total);
        let at = 4 + inductives.len();
        let five = vec![Field::U32, Field::U32, Field::U32, Field::U32, Field::U32];
        assert(five@ =~= seq![Field::U32, Field::U32, Field::U32, Field::U32, Field::U32]);
        let n = self.read_fields(ws, at, &five)?;
        let num_rec_rules = n[4] as usize;
        assert(at + 5 <= total);
        let rules = self.read_run(ws, at + 5, num_rec_rules, Field::Rule)?;
        assert(num_rec_rules > 0 ==> at + 5 + num_rec_rules <= total);
        let one = vec![Field::Flag];
        assert(one@ =~= seq![Field::Flag]);
        self.read_fields(ws, at + 5 + rules.len(), &one)?;
        let uparams = self.parse_uparams(ws, at + 6 + rules.len())?;
        self.add_declar(Declar::Recursor { name, uparams, ty });
        proof {
            let g = fields_of(
                old(self).lens(),
                views(ws@),
                at + 6 + rules@.len(),
                rest_of(views(ws@), at + 6 + rules@.len(), Field::Name),
            ).unwrap();
            assert(self.declared_as(old(self), DeclarNode::Recursor { name, uparams, ty }, g));
        }
        Ok(())
    }

    /// What a line that interns a value does to the environment `old`,
    /// which becomes `self`, and how many words such a line has: the second
    /// word of the line says what is interned, and the rule of that line
    /// holds of some handle.
    #[verifier::opaque]
    pub open spec fn altro_line(
        &self,
        old: &ExportFile,
        idx: u32,
        ws: Seq<Seq<u8>>,
        r: Result<usize, ParseErrorKind>,
    ) -> bool {
        if ws.len() < 2 {
            r == Err::<usize, ParseErrorKind>(ParseErrorKind::MissingToken)
        } else if ws[1] == ascii("#RR"@) {
            match r {
                Ok(n) => n == 5 && exists|p: RecRulePtr|
                    self.rr_line(old, idx, ws, Ok::<RecRulePtr, ParseErrorKind>(p)),
                Err(k) => self.rr_line(old, idx, ws, Err::<RecRulePtr, ParseErrorKind>(k)),
            }
        } else if ws[1] == ascii("#NS"@) {
            match r {
                Ok(n) => n == 4 && exists|p: NamePtr|
                    self.ns_line(old, idx, ws, Ok::<NamePtr, ParseErrorKind>(p)),
                Err(k) => self.ns_line(old, idx, ws, Err::<NamePtr, ParseErrorKind>(k)),
            }
        } else if ws[1] == ascii("#NI"@) {
            match r {
                Ok(n) => n == 4 && exists|p: NamePtr|
                    self.ni_line(old, idx, ws, Ok::<NamePtr, ParseErrorKind>(p)),
                Err(k) => self.ni_line(old, idx, ws, Err::<NamePtr, ParseErrorKind>(k)),
            }
        } else if ws[1] == ascii("#US"@) {
            match r {
                Ok(n) => n == 3 && exists|p: UniversePtr|
                    self.us_line(old, idx, ws, Ok::<UniversePtr, ParseErrorKind>(p)),
                Err(k) => self.us_line(old, idx, ws, Err::<UniversePtr, ParseErrorKind>(k)),
            }
        } else if ws[1] == ascii("#UM"@) {
            match r {
                Ok(n) => n == 4 && exists|p: UniversePtr|
                    self.um_line(old, idx, ws, Ok::<UniversePtr, ParseErrorKind>(p)),
                Err(k) => self.um_line(old, idx, ws, Err::<UniversePtr, ParseErrorKind>(k)),
            }
        } else if ws[1] == ascii("#UIM"@) {
            match r {
                Ok(n) => n == 4 && exists|p: UniversePtr|
                    self.uim_line(old, idx, ws, Ok::<UniversePtr, ParseErrorKind>(p)),
                Err(k) => self.uim_line(old, idx, ws, Err::<UniversePtr, ParseErrorKind>(k)),
            }
        } else if ws[1] == ascii("#UP"@) {
            match r {
                Ok(n) => n == 3 && exists|p: UniversePtr|
                    self.up_line(old, idx, ws, Ok::<UniversePtr, ParseErrorKind>(p)),
                Err(k) => self.up_line(old, idx, ws, Err::<UniversePtr, ParseErrorKind>(k)),
            }
        } else if ws[1] == ascii("#EV"@) {
            match r {
                Ok(n) => n == 3 && exists|p: ExprPtr|
                    self.ev_line(old, idx, ws, Ok::<ExprPtr, ParseErrorKind>(p)),
                Err(k) => self.ev_line(old, idx, ws, Err::<ExprPtr, ParseErrorKind>(k)),
            }
        } else if ws[1] == ascii("#ES"@) {
            match r {
                Ok(n) => n == 3 && exists|p: ExprPtr|
                    self.es_line(old, idx, ws, Ok::<ExprPtr, ParseErrorKind>(p)),
                Err(k) => self.es_line(old, idx, ws, Err::<ExprPtr, ParseErrorKind>(k)),
            }
        } else if ws[1] == ascii("#EC"@) {
            match r {
                Ok(n) => n == ws.len() && exists|p: ExprPtr|
                    self.ec_line(old, idx, ws, Ok::<ExprPtr, ParseErrorKind>(p)),
                Err(k) => self.ec_line(old, idx, ws, Err::<ExprPtr, ParseErrorKind>(k)),
            }
        } else if ws[1] == ascii("#EA"@) {
            match r {
                Ok(n) => n == 4 && exists|p: ExprPtr|
                    self.ea_line(old, idx, ws, Ok::<ExprPtr, ParseErrorKind>(p)),
                Err(k) => self.ea_line(old, idx, ws, Err::<ExprPtr, ParseErrorKind>(k)),
            }
        } else if ws[1] == ascii("#EL"@) {
            match r {
                Ok(n) => n == 6 && exists|p: ExprPtr|
                    self.el_line(old, idx, ws, Ok::<ExprPtr, ParseErrorKind>(p)),
                Err(k) => self.el_line(old, idx, ws, Err::<ExprPtr, ParseErrorKind>(k)),
            }
        } else if ws[1] == ascii("#EP"@) {
            match r {
                Ok(n) => n == 6 && exists|p: ExprPtr|
                    self.ep_line(old, idx, ws, Ok::<ExprPtr, ParseErrorKind>(p)),
                Err(k) => self.ep_line(old, idx, ws, Err::<ExprPtr, ParseErrorKind>(k)),
            }
        } else if ws[1] == ascii("#EZ"@) {
            match r {
                Ok(n) => n == 6 && exists|p: ExprPtr|
                    self.ez_line(old, idx, ws, Ok::<ExprPtr, ParseErrorKind>(p)),
                Err(k) => self.ez_line(old, idx, ws, Err::<ExprPtr, ParseErrorKind>(k)),
            }
        } else if ws[1] == ascii("#EJ"@) {
            match r {
                Ok(n) => n == 5 && exists|p: ExprPtr|
                    self.ej_line(old, idx, ws, Ok::<ExprPtr, ParseErrorKind>(p)),
                Err(k) => self.ej_line(old, idx, ws, Err::<ExprPtr, ParseErrorKind>(k)),
            }
        } else if ws[1] == ascii("#ELN"@) {
            match r {
                Ok(n) => n == 3 && exists|p: ExprPtr|
                    self.eln_line(old, idx, ws, Ok::<ExprPtr, ParseErrorKind>(p)),
                Err(k) => self.eln_line(old, idx, ws, Err::<ExprPtr, ParseErrorKind>(k)),
            }
        } else if ws[1] == ascii("#ELS"@) {
            match r {
                Ok(n) => n == ws.len() && exists|p: ExprPtr|
                    self.els_line(old, idx, ws, Ok::<ExprPtr, ParseErrorKind>(p)),
                Err(k) => self.els_line(old, idx, ws, Err::<ExprPtr, ParseErrorKind>(k)),
            }
        } else {
            r == Err::<usize, ParseErrorKind>(ParseErrorKind::UnknownLine)
        }
    }

    /// A line that interns a name, a level, an expression or a recursor
    /// rule: its first word is the handle `idx` that the value is to get, its
    /// second word says what is interned. Returns how many words such a
    /// line has.
    pub fn parse_altro(&mut self, idx: u32, ws: &Vec<Vec<u8>>) -> (r: Result<usize, ParseErrorKind>)
        requires
            old(self).wf(),
        ensures
            final(self).grown(old(self)),
            final(self).altro_line(old(self), idx, views(ws@), r),
    {
        proof {
            reveal(ExportFile::altro_line);
            self.lemma_grown_refl();
            reveal_strlit("#RR");
            reveal_strlit("#NS");
            reveal_strlit("#NI");
            reveal_strlit("#US");
            reveal_strlit("#UM");
            reveal_strlit("#UIM");
            reveal_strlit("#UP");
            reveal_strlit("#EV");
            reveal_strlit("#ES");
            reveal_strlit("#EC");
            reveal_strlit("#EA");
            reveal_strlit("#EL");
            reveal_strlit("#EP");
            reveal_strlit("#EZ");
            reveal_strlit("#EJ");
            reveal_strlit("#ELN");
            reveal_strlit("#ELS");
        }
        if ws.len() < 2 {
            return Err(ParseErrorKind::MissingToken);
        }
        let oper = &ws[1];
        assert(views(ws@)[1] == oper@);
        if word_is(oper, "#RR") {
            let p = self.parse_rr(idx, ws)?;
            assert(self.rr_line(old(self), idx, views(ws@), Ok::<RecRulePtr, ParseErrorKind>(p)));
            Ok(5)
        } else if word_is(oper, "#NS") {
            let p = self.parse_ns(idx, ws)?;
            assert(self.ns_line(old(self), idx, views(ws@), Ok::<NamePtr, ParseErrorKind>(p)));
            Ok(4)
        } else if word_is(oper, "#NI") {
            let p = self.parse_ni(idx, ws)?;
            assert(self.ni_line(old(self), idx, views(ws@), Ok::<NamePtr, ParseErrorKind>(p)));
            Ok(4)
        } else if word_is(oper, "#US") {
            let p = self.parse_us(idx, ws)?;
            assert(self.us_line(old(self), idx, views(ws@), Ok::<UniversePtr, ParseErrorKind>(p)));
            Ok(3)
        } else if word_is(oper, "#UM") {
            let p = self.parse_um(idx, ws)?;
            assert(self.um_line(old(self), idx, views(ws@), Ok::<UniversePtr, ParseErrorKind>(p)));
            Ok(4)
        } else if word_is(oper, "#UIM") {
            let p = self.parse_uim(idx, ws)?;
            assert(self.uim_line(old(self), idx, views(ws@), Ok::<UniversePtr, ParseErrorKind>(p)));
            Ok(4)
        } else if word_is(oper, "#UP") {
            let p = self.parse_up(idx, ws)?;
            assert(self.up_line(old(self), idx, views(ws@), Ok::<UniversePtr, ParseErrorKind>(p)));
            Ok(3)
        } else if word_is(oper, "#EV") {
            let p = self.parse_ev(idx, ws)?;
            assert(self.ev_line(old(self), idx, views(ws@), Ok::<ExprPtr, ParseErrorKind>(p)));
            Ok(3)
        } else if word_is(oper, "#ES") {
            let p = self.parse_es(idx, ws)?;
            assert(self.es_line(old(self), idx, views(ws@), Ok::<ExprPtr, ParseErrorKind>(p)));
            Ok(3)
        } else if word_is(oper, "#EC") {
            let p = self.parse_ec(idx, ws)?;
            assert(self.ec_line(old(self), idx, views(ws@), Ok::<ExprPtr, ParseErrorKind>(p)));
            Ok(ws.len())
        } else if word_is(oper, "#EA") {
            let p = self.parse_ea(idx, ws)?;
            assert(self.ea_line(old(self), idx, views(ws@), Ok::<ExprPtr, ParseErrorKind>(p)));
            Ok(4)
        } else if word_is(oper, "#EL") {
            let p = self.parse_el(idx, ws)?;
            assert(self.el_line(old(self), idx, views(ws@), Ok::<ExprPtr, ParseErrorKind>(p)));
            Ok(6)
        } else if word_is(oper, "#EP") {
            let p = self.parse_ep(idx, ws)?;
            assert(self.ep_line(old(self), idx, views(ws@), Ok::<ExprPtr, ParseErrorKind>(p)));
            Ok(6)
        } else if word_is(oper, "#EZ") {
            let p = self.parse_ez(idx, ws)?;
            assert(self.ez_line(old(self), idx, views(ws@), Ok::<ExprPtr, ParseErrorKind>(p)));
            Ok(6)
        } else if word_is(oper, "#EJ") {
            let p = self.parse_ej(idx, ws)?;
            assert(self.ej_line(old(self), idx, views(ws@), Ok::<ExprPtr, ParseErrorKind>(p)));
            Ok(5)
        } else if word_is(oper, "#ELN") {
            let p = self.parse_eln(idx, ws)?;
            assert(self.eln_line(old(self), idx, views(ws@), Ok::<ExprPtr, ParseErrorKind>(p)));
            Ok(3)
        } else if word_is(oper, "#ELS") {
            let p = self.parse_els(idx, ws)?;
            assert(self.els_line(old(self), idx, views(ws@), Ok::<ExprPtr, ParseErrorKind>(p)));
            Ok(ws.len())
        } else {
            Err(ParseErrorKind::UnknownLine)
        }
    }

    /// What is returned for a line that interns a value, given what its
    /// rule returned and how many words the line has.
    pub open spec fn closing(a: Result<usize, ParseErrorKind>, n: nat) -> Result<
        (),
        ParseErrorKind,
    > {
        match a {
            Ok(m) => if m == n {
                Ok(())
            } else {
                Err(ParseErrorKind::TrailingTokens)
            },
            Err(k) => Err(k),
        }
    }

    /// What a line does to the environment `old`, which becomes `self`, and
    /// what is returned for it: the first word of the line names a
    /// declaration, whose rule then holds, or it is the handle of a value to
    /// intern, and the line has as many words as the rule of that value
    /// takes.
    #[verifier::opaque]
    pub open spec fn line_read(
        &self,
        old: &ExportFile,
        line: Seq<u8>,
        r: Result<(), ParseErrorKind>,
    ) -> bool {
        let ws = words_of(line);
        &&& self.wf()
        &&& self.stores().keeps(old.stores())
        &&& self.kstate() == old.kstate()
        &&& if ws.len() == 0 {
            r == Err::<(), ParseErrorKind>(ParseErrorKind::EmptyLine)
        } else if ws[0] == ascii("#AX"@) {
            self.axiom_line(old, ws, r) && (r is Err ==> self.decls() == old.decls() && declar_entries(
                self.declars,
            ) == declar_entries(old.declars))
        } else if ws[0] == ascii("#DEF"@) {
            self.def_line(old, ws, r) && (r is Err ==> self.decls() == old.decls() && declar_entries(
                self.declars,
            ) == declar_entries(old.declars))
        } else if ws[0] == ascii("#OPAQ"@) {
            self.opaq_line(old, ws, r) && (r is Err ==> self.decls() == old.decls() && declar_entries(
                self.declars,
            ) == declar_entries(old.declars))
        } else if ws[0] == ascii("#THM"@) {
            self.theorem_line(old, ws, r) && (r is Err ==> self.decls() == old.decls() && declar_entries(
                self.declars,
            ) == declar_entries(old.declars))
        } else if ws[0] == ascii("#QUOT"@) {
            self.quot_line(old, ws, r) && (r is Err ==> self.decls() == old.decls() && declar_entries(
                self.declars,
            ) == declar_entries(old.declars))
        } else if ws[0] == ascii("#IND"@) {
            self.inductive_line(old, ws, r) && (r is Err ==> self.decls() == old.decls() && declar_entries(
                self.declars,
            ) == declar_entries(old.declars))
        } else if ws[0] == ascii("#CTOR"@) {
            self.constructor_line(old, ws, r) && (r is Err ==> self.decls() == old.decls() && declar_entries(
                self.declars,
            ) == declar_entries(old.declars))
        } else if ws[0] == ascii("#REC"@) {
            self.recursor_line(old, ws, r) && (r is Err ==> self.decls() == old.decls() && declar_entries(
                self.declars,
            ) == declar_entries(old.declars))
        } else {
            &&& self.decls() == old.decls()
            &&& declar_entries(self.declars) == declar_entries(old.declars)
            &&& match number_of(ws[0], 10, u32::MAX as nat) {
                None => r == Err::<(), ParseErrorKind>(ParseErrorKind::BadNumber),
                Some(idx) => exists|a: Result<usize, ParseErrorKind>|
                    self.altro_line(old, idx as u32, ws, a) && r == Self::closing(a, ws.len()),
            }
        }
    }

    /// Reads one line: a declaration, or a value to intern.
    pub fn parse_line(&mut self, line: &Vec<u8>) -> (r: Result<(), ParseErrorKind>)
        requires
            old(self).wf(),
        ensures
            final(self).wf(),
            final(self).line_read(old(self), line@, r),
    {
        proof {
            reveal(ExportFile::line_read);
            self.lemma_grown_refl();
            reveal_strlit("#AX");
            reveal_strlit("#DEF");
            reveal_strlit("#OPAQ");
            reveal_strlit("#THM");
            reveal_strlit("#QUOT");
            reveal_strlit("#IND");
            reveal_strlit("#CTOR");
            reveal_strlit("#REC");
        }
        let ws = split_words(line);
        if ws.len() == 0 {
            return Err(ParseErrorKind::EmptyLine);
        }
        let token = &ws[0];
        assert(views(ws@)[0] == token@);
        if word_is(token, "#AX") {
            self.parse_axiom(&ws)
        } else if word_is(token, "#DEF") {
            self.parse_def(&ws)
        } else if word_is(token, "#OPAQ") {
            self.parse_opaq(&ws)
        } else if word_is(token, "#THM") {
            self.parse_theorem(&ws)
        } else if word_is(token, "#QUOT") {
            self.parse_quot(&ws)
        } else if word_is(token, "#IND") {
            self.parse_inductive(&ws)
        } else if word_is(token, "#CTOR") {
            self.parse_constructor(&ws)
        } else if word_is(token, "#REC") {
            self.parse_recursor(&ws)
        } else {
            let idx = match parse_number(token, 10, u32::MAX as u128) {
                Some(idx) => idx as u32,
                None => {
                    return Err(ParseErrorKind::BadNumber);
                },
            };
            let ghost n0 = number_of(views(ws@)[0], 10, u32::MAX as nat);
            assert(n0 == Some(idx as nat));
            assert((idx as nat) as u32 == idx);
            let a = self.parse_altro(idx, &ws);
            match a {
                Ok(used) => {
                    if used != ws.len() {
                        assert(self.altro_line(old(self), idx, views(ws@), a) && Err::<
                            (),
                            ParseErrorKind,
                        >(ParseErrorKind::TrailingTokens) == Self::closing(a, ws@.len()));
                        return Err(ParseErrorKind::TrailingTokens);
                    }
                    assert(self.altro_line(old(self), idx, views(ws@), a) && Ok::<
                        (),
                        ParseErrorKind,
                    >(()) == Self::closing(a, ws@.len()));
                    Ok(())
                },
                Err(k) => {
                    assert(self.altro_line(old(self), idx, views(ws@), a) && Err::<
                        (),
                        ParseErrorKind,
                    >(k) == Self::closing(a, ws@.len()));
                    Err(k)
                },
            }
        }
    }
}

/// Whether the first line of a text names the version that is read here.
pub open spec fn version_named(lines: Seq<Seq<u8>>) -> bool {
    lines.len() > 0 && trimmed(lines[0]) == ascii("2.0.0"@)
}

/// Whether `run` is how an empty environment took the first `n` lines
/// after the version in, one after the other.
pub open spec fn took_lines(run: Seq<ExportFile>, lines: Seq<Seq<u8>>, n: int) -> bool {
    &&& run.len() == n + 1
    &&& n < lines.len()
    &&& run[0].wf()
    &&& run[0].stores().names == seq![crate::name::NameNode::Anon]
    &&& run[0].stores().universes == seq![Universe::Zero]
    &&& run[0].stores().uparams.len() == 0
    &&& run[0].stores().exprs.len() == 0
    &&& run[0].lens().rules == 0
    &&& run[0].decl_list().len() == 0
    &&& crate::store::memo_entries(run[0].infers) == Map::<ExprPtr, ExprPtr>::empty()
    &&& crate::store::memo_entries(run[0].whnfs) == Map::<ExprPtr, ExprPtr>::empty()
    &&& run[0].next_fvar == 0
    &&& forall|i: int|
        1 <= i <= n ==> (#[trigger] run[i]).line_read(
            &run[i - 1],
            trimmed(lines[i]),
            Ok::<(), ParseErrorKind>(()),
        )
}

/// Whether `run` is how an empty environment took the lines before line
/// `at` in, and `last` is what the environment became when line `at` was
/// refused for the reason `kind`. The first line is line 1.
pub open spec fn stopped_at(
    run: Seq<ExportFile>,
    last: ExportFile,
    lines: Seq<Seq<u8>>,
    at: int,
    kind: ParseErrorKind,
) -> bool {
    &&& took_lines(run, lines, at - 2)
    &&& last.line_read(&run.last(), trimmed(lines[at - 1]), Err::<(), ParseErrorKind>(kind))
}

/// Reads an export file: the first line names the version, every other
/// line declares or interns something. The error names the line at which
/// reading stopped.
pub fn read_file(text: &Vec<u8>) -> (r: Result<ExportFile, ParseError>)
    ensures
        match r {
            Ok(f) => f.wf() && version_named(lines_of(text@)) && exists|run: Seq<ExportFile>|
                #[trigger] took_lines(run, lines_of(text@), lines_of(text@).len() - 1)
                    && run.last() == f,
            Err(e) => if !version_named(lines_of(text@)) {
                e == (ParseError { line: 1, kind: ParseErrorKind::BadVersion })
            } else {
                &&& 2 <= e.line <= lines_of(text@).len()
                &&& exists|run: Seq<ExportFile>, last: ExportFile| #[trigger]
                    stopped_at(run, last, lines_of(text@), e.line as int, e.kind)
            },
        },
{
    proof {
        reveal_strlit("2.0.0");
    }
    let lines = split_lines(text);
    let mut f = ExportFile::new();
    if lines.len() == 0 {
        return Err(ParseError { line: 1, kind: ParseErrorKind::BadVersion });
    }
    let version = trim_end(&lines[0]);
    assert(views(lines@)[0] == lines@[0]@);
    if !word_is(&version, "2.0.0") {
        return Err(ParseError { line: 1, kind: ParseErrorKind::BadVersion });
    }
    let ghost all = lines_of(text@);
    let ghost mut run: Seq<ExportFile> = seq![f];
    proof {
        reveal(ExportFile::decl_list);
    }
    let mut i: usize = 1;
    while i < lines.len()
        invariant
            1 <= i <= lines.len(),
            f.wf(),
            all == lines_of(text@),
            views(lines@) == all,
            version_named(all),
            took_lines(run, all, i - 1),
            run.last() == f,
        decreases lines.len() - i,
    {
        let line = trim_end(&lines[i]);
        assert(views(lines@)[i as int] == lines@[i as int]@);
        assert(line@ == trimmed(all[i as int]));
        assert(lines@.len() == all.len());
        let ghost before = f;
        let ghost done = run;
        let res = f.parse_line(&line);
        assert(f.line_read(&before, trimmed(all[i as int]), res));
        match res {
            Ok(unit) => {
                proof {
                    assert(res == Ok::<(), ParseErrorKind>(unit));
                    assert(unit == ());
                    assert(done.len() == i);
                    run = done.push(f);
                    assert forall|j: int| 1 <= j <= i implies (#[trigger] run[j]).line_read(
                        &run[j - 1],
                        trimmed(all[j]),
                        Ok::<(), ParseErrorKind>(()),
                    ) by {
                        if j < i {
                            assert(run[j] == done[j]);
                            assert(run[j - 1] == done[j - 1]);
                        } else {
                            assert(run[j] == f);
                            assert(run[j - 1] == before);
                        }
                    }
                }
            },
            Err(kind) => {
                proof {
                    assert(done.last() == before);
                    assert(stopped_at(done, f, all, i + 1, kind));
                    assert(2 <= i + 1 <= all.len());
                    assert(version_named(lines_of(text@)));
                }
                let e = ParseError { line: i + 1, kind };
                assert(stopped_at(done, f, lines_of(text@), e.line as int, e.kind));
                return Err(e);
            },
        }
        i += 1;
    }
    Ok(f)
}

} // verus!
