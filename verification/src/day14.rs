//! The nanofactory: every chemical but ore is made by one reaction from
//! other chemicals, and the ore that a unit of fuel costs is wanted.

use vstd::prelude::*;
use fnv::FnvHashMap;
use crate::number::{number_of, parse_u64, NumberError};
use crate::text::{
    chars_of, first_index_of, lines, lines_of, slice_of, split, split_on, split_once, texts_of,
    trim, trimmed,
};

verus! {

/// An amount of a chemical, in the terms of the model.
pub struct ChemicalModel {
    pub name: Seq<char>,
    pub amount: nat,
}

/// A reaction, in the terms of the model: what goes in, and what comes out.
pub struct RecipeModel {
    pub input: Seq<ChemicalModel>,
    pub result: ChemicalModel,
}

/// An amount of a chemical. The amount is never zero.
#[derive(Debug)]
pub struct Chemical {
    name: Vec<char>,
    amount: u64,
}

impl View for Chemical {
    type V = ChemicalModel;

    closed spec fn view(&self) -> ChemicalModel {
        ChemicalModel { name: self.name@, amount: self.amount as nat }
    }
}

/// Why a text describes no reactions.
#[derive(Debug, Clone, Copy, PartialEq, Eq)]
pub enum ChemistryError {
    /// An amount of a chemical holds no blank between the amount and the
    /// name.
    NoBlank,
    /// An amount is no number.
    BadNumber(NumberError),
    /// An amount is zero.
    ZeroAmount,
    /// A reaction holds no `=>`.
    NoArrow,
}

/// The amount of a chemical that a text such as `7 A` stands for: after
/// white space, a number that is not zero, a blank, and the name, which is
/// all that follows the blank up to the white space at the end.
pub open spec fn chemical_of(s: Seq<char>) -> Result<ChemicalModel, ChemistryError> {
    let text = trimmed(s);
    if !text.contains(' ') {
        Err(ChemistryError::NoBlank)
    } else {
        let blank = first_index_of(text, ' ');
        match number_of(text.subrange(0, blank), 0, u64::MAX as int) {
            Err(error) => Err(ChemistryError::BadNumber(error)),
            Ok(amount) => if amount == 0 {
                Err(ChemistryError::ZeroAmount)
            } else {
                Ok(
                    ChemicalModel {
                        name: text.subrange(blank + 1, text.len() as int),
                        amount: amount as nat,
                    },
                )
            },
        }
    }
}

impl Chemical {
    #[verifier::type_invariant]
    spec fn well_formed(&self) -> bool {
        self.amount > 0
    }

    /// The name of the chemical.
    pub fn name(&self) -> (name: &[char])
        ensures
            name@ == self@.name,
    {
        self.name.as_slice()
    }

    /// The amount, which is not zero.
    pub fn amount(&self) -> (amount: u64)
        ensures
            amount == self@.amount,
            amount > 0,
    {
        proof {
            use_type_invariant(self);
        }
        self.amount
    }

    /// Reads an amount of a chemical, such as `7 A`.
    pub fn parse(s: &[char]) -> (r: Result<Self, ChemistryError>)
        ensures
            match chemical_of(s@) {
                Ok(model) => r matches Ok(chemical) && chemical@ == model,
                Err(error) => r matches Err(e) && e == error,
            },
    {
        let text = trim(s);
        let (amount, name) = match split_once(text.as_slice(), ' ') {
            Some(parts) => parts,
            None => {
                return Err(ChemistryError::NoBlank);
            },
        };
        let amount = match parse_u64(amount.as_slice()) {
            Ok(amount) => amount,
            Err(error) => {
                return Err(ChemistryError::BadNumber(error));
            },
        };
        if amount == 0 {
            return Err(ChemistryError::ZeroAmount);
        }
        Ok(Self { name, amount })
    }
}

impl Clone for Chemical {
    /// The same amount of the same chemical.
    fn clone(&self) -> (copy: Self)
        ensures
            copy@ == self@,
    {
        proof {
            use_type_invariant(self);
        }
        let name = slice_of(self.name.as_slice(), 0, self.name.len());
        assert(name@ =~= self.name@);
        Self { name, amount: self.amount }
    }
}

impl core::str::FromStr for Chemical {
    type Err = ChemistryError;

    /// Reads an amount of a chemical as [`Chemical::parse`] does.
    fn from_str(s: &str) -> (r: Result<Self, ChemistryError>)
        ensures
            match chemical_of(s@) {
                Ok(model) => r matches Ok(chemical) && chemical@ == model,
                Err(error) => r matches Err(e) && e == error,
            },
    {
        let text = chars_of(s);
        Chemical::parse(text.as_slice())
    }
}

/// A reaction: the chemicals that go in, and the chemical that comes out.
#[derive(Debug)]
pub struct Recipe {
    input: Vec<Chemical>,
    result: Chemical,
}

/// The models of a list of chemicals.
pub open spec fn models_of(chemicals: Seq<Chemical>) -> Seq<ChemicalModel> {
    Seq::new(chemicals.len(), |i: int| chemicals[i]@)
}

impl View for Recipe {
    type V = RecipeModel;

    closed spec fn view(&self) -> RecipeModel {
        RecipeModel { input: models_of(self.input@), result: self.result@ }
    }
}

/// Whether a `=>` begins at place `j` of `s`.
pub open spec fn is_arrow_at(s: Seq<char>, j: int) -> bool {
    0 <= j && j + 1 < s.len() && s[j] == '=' && s[j + 1] == '>'
}

/// The place of the first `=>` in `s`, or the length of `s` where there is
/// none.
pub open spec fn first_arrow(s: Seq<char>) -> int
    decreases s.len(),
{
    if s.len() < 2 {
        s.len() as int
    } else if s[0] == '=' && s[1] == '>' {
        0
    } else {
        1 + first_arrow(s.drop_first())
    }
}

/// A place before which no `=>` begins, and at which one begins or which is
/// the length of `s`, is the place of the first `=>`.
proof fn lemma_first_arrow_is(s: Seq<char>, i: int)
    requires
        0 <= i <= s.len(),
        forall|j: int| 0 <= j < i ==> !#[trigger] is_arrow_at(s, j),
        i == s.len() || is_arrow_at(s, i),
    ensures
        first_arrow(s) == i,
    decreases s.len(),
{
    if s.len() >= 2 && s[0] == '=' && s[1] == '>' {
        assert(is_arrow_at(s, 0));
    } else if s.len() >= 2 {
        let rest = s.drop_first();
        assert forall|j: int| 0 <= j < i - 1 implies !#[trigger] is_arrow_at(rest, j) by {
            assert(!is_arrow_at(s, j + 1));
        }
        lemma_first_arrow_is(rest, i - 1);
    }
}

/// The place of the first `=>` in `text`, or its length where there is none.
fn find_arrow(text: &[char]) -> (i: usize)
    ensures
        i == first_arrow(text@),
        i == text@.len() || i + 1 < text@.len(),
{
    let mut i: usize = 0;
    while i < text.len() && i + 1 < text.len()
        invariant
            i <= text@.len(),
            forall|j: int| 0 <= j < i ==> !#[trigger] is_arrow_at(text@, j),
        decreases text@.len() - i,
    {
        if text[i] == '=' && text[i + 1] == '>' {
            proof {
                lemma_first_arrow_is(text@, i as int);
            }
            return i;
        }
        i += 1;
    }
    proof {
        lemma_first_arrow_is(text@, text@.len() as int);
    }
    text.len()
}

/// The chemicals that a list of texts stands for. The first text that is no
/// amount of a chemical decides the error.
pub open spec fn chemicals_of(fields: Seq<Seq<char>>) -> Result<Seq<ChemicalModel>, ChemistryError>
    decreases fields.len(),
{
    if fields.len() == 0 {
        Ok(Seq::<ChemicalModel>::empty())
    } else {
        match chemicals_of(fields.drop_last()) {
            Err(error) => Err(error),
            Ok(before) => match chemical_of(fields.last()) {
                Err(error) => Err(error),
                Ok(chemical) => Ok(before.push(chemical)),
            },
        }
    }
}

/// Where the first texts of a list fail, the whole list fails in the same
/// way.
proof fn lemma_chemicals_of_fails_on(fields: Seq<Seq<char>>, n: int)
    requires
        0 <= n <= fields.len(),
    ensures
        chemicals_of(fields.take(n)) matches Err(error) ==> chemicals_of(fields) == Err::<
            Seq<ChemicalModel>,
            ChemistryError,
        >(error),
    decreases fields.len() - n,
{
    if n == fields.len() {
        assert(fields.take(n) =~= fields);
    } else {
        lemma_chemicals_of_fails_on(fields.drop_last(), n);
        assert(fields.drop_last().take(n) =~= fields.take(n));
    }
}

/// The reaction that a text such as `7 A, 1 B => 1 C` stands for: amounts of
/// chemicals with commas between them, `=>`, and one amount of a chemical.
/// What goes in is read first.
pub open spec fn recipe_of(s: Seq<char>) -> Result<RecipeModel, ChemistryError> {
    let text = trimmed(s);
    let arrow = first_arrow(text);
    if arrow >= text.len() {
        Err(ChemistryError::NoArrow)
    } else {
        match chemicals_of(split_on(text.subrange(0, arrow), ',')) {
            Err(error) => Err(error),
            Ok(input) => match chemical_of(text.subrange(arrow + 2, text.len() as int)) {
                Err(error) => Err(error),
                Ok(result) => Ok(RecipeModel { input, result }),
            },
        }
    }
}

impl Recipe {
    /// The chemicals that go in.
    pub fn input(&self) -> (input: &Vec<Chemical>)
        ensures
            models_of(input@) == self@.input,
    {
        &self.input
    }

    /// The chemical that comes out.
    pub fn result(&self) -> (result: &Chemical)
        ensures
            result@ == self@.result,
    {
        &self.result
    }

    /// Reads a reaction, such as `7 A, 1 B => 1 C`.
    pub fn parse(s: &[char]) -> (r: Result<Self, ChemistryError>)
        ensures
            match recipe_of(s@) {
                Ok(model) => r matches Ok(recipe) && recipe@ == model,
                Err(error) => r matches Err(e) && e == error,
            },
    {
        let text = trim(s);
        let arrow = find_arrow(text.as_slice());
        if arrow >= text.len() {
            return Err(ChemistryError::NoArrow);
        }
        let inputs = slice_of(text.as_slice(), 0, arrow);
        let result = slice_of(text.as_slice(), arrow + 2, text.len());
        let fields = split(inputs.as_slice(), ',');
        let mut input: Vec<Chemical> = Vec::new();
        let mut i: usize = 0;
        let ghost all = texts_of(fields@);
        assert(models_of(input@) =~= Seq::<ChemicalModel>::empty());
        while i < fields.len()
            invariant
                i <= fields@.len(),
                all == texts_of(fields@),
                all == split_on(trimmed(s@).subrange(0, arrow as int), ','),
                arrow == first_arrow(trimmed(s@)),
                arrow < trimmed(s@).len(),
                chemicals_of(all.take(i as int)) == Ok::<Seq<ChemicalModel>, ChemistryError>(
                    models_of(input@),
                ),
            decreases fields@.len() - i,
        {
            let ghost before = models_of(input@);
            assert(all.take(i + 1).drop_last() =~= all.take(i as int));
            proof {
                lemma_chemicals_of_fails_on(all, i + 1);
            }
            match Chemical::parse(fields[i].as_slice()) {
                Ok(chemical) => {
                    let ghost model = chemical@;
                    input.push(chemical);
                    assert(models_of(input@) =~= before.push(model));
                },
                Err(error) => {
                    return Err(error);
                },
            }
            i += 1;
        }
        assert(all.take(all.len() as int) =~= all);
        let result = Chemical::parse(result.as_slice())?;
        Ok(Self { input, result })
    }
}

impl Clone for Recipe {
    /// The same reaction.
    fn clone(&self) -> (copy: Self)
        ensures
            copy@ == self@,
    {
        let mut input: Vec<Chemical> = Vec::new();
        let mut i: usize = 0;
        while i < self.input.len()
            invariant
                i <= self.input@.len(),
                input@.len() == i,
                forall|k: int| 0 <= k < i ==> (#[trigger] input@[k])@ == self.input@[k]@,
            decreases self.input@.len() - i,
        {
            input.push(self.input[i].clone());
            i += 1;
        }
        assert(models_of(input@) =~= models_of(self.input@));
        Self { input, result: self.result.clone() }
    }
}

impl core::str::FromStr for Recipe {
    type Err = ChemistryError;

    /// Reads a reaction as [`Recipe::parse`] does.
    fn from_str(s: &str) -> (r: Result<Self, ChemistryError>)
        ensures
            match recipe_of(s@) {
                Ok(model) => r matches Ok(recipe) && recipe@ == model,
                Err(error) => r matches Err(e) && e == error,
            },
    {
        let text = chars_of(s);
        Recipe::parse(text.as_slice())
    }
}

/// The reactions that a book holds, each under the name of the chemical
/// that it makes.
pub uninterp spec fn recipes_in(book: FnvHashMap<Vec<char>, Recipe>) -> Map<Seq<char>, RecipeModel>;

/// The amounts that a stock holds, each under the name of its chemical.
pub uninterp spec fn stock_in(stock: FnvHashMap<Vec<char>, u64>) -> Map<Seq<char>, u64>;

/// The book that holds no reaction.
pub open spec fn no_recipes() -> Map<Seq<char>, RecipeModel> {
    Map::empty()
}

/// The stock that holds nothing.
pub open spec fn no_stock() -> Map<Seq<char>, u64> {
    Map::empty()
}

/// `HashMap::default` with the FNV hasher: a book that holds no reaction.
#[verifier::external_body]
fn book_new() -> (book: FnvHashMap<Vec<char>, Recipe>)
    ensures
        recipes_in(book) == no_recipes(),
{
    FnvHashMap::default()
}

/// `HashMap::insert` with the FNV hasher: the book holds the reaction under
/// the name afterwards, in place of what it held under that name before, and
/// besides what it held under other names.
#[verifier::external_body]
fn book_insert(book: &mut FnvHashMap<Vec<char>, Recipe>, name: Vec<char>, recipe: Recipe)
    ensures
        recipes_in(*final(book)) == recipes_in(*old(book)).insert(name@, recipe@),
{
    book.insert(name, recipe);
}

/// `HashMap::get` with the FNV hasher: the reaction that the book holds under
/// the name, if it holds one.
#[verifier::external_body]
fn book_get<'a>(book: &'a FnvHashMap<Vec<char>, Recipe>, name: &[char]) -> (found: Option<
    &'a Recipe,
>)
    ensures
        match found {
            Some(recipe) => recipes_in(*book).contains_key(name@) && recipe@ == recipes_in(
                *book,
            )[name@],
            None => !recipes_in(*book).contains_key(name@),
        },
{
    book.get(name)
}

/// `HashMap::default` with the FNV hasher: a stock that holds nothing.
#[verifier::external_body]
fn stock_new() -> (stock: FnvHashMap<Vec<char>, u64>)
    ensures
        stock_in(stock) == no_stock(),
{
    FnvHashMap::default()
}

/// `HashMap::remove` with the FNV hasher: the amount that the stock held
/// under the name, if it held one, which it holds no longer.
#[verifier::external_body]
fn stock_remove(stock: &mut FnvHashMap<Vec<char>, u64>, name: &[char]) -> (removed: Option<u64>)
    ensures
        removed == if stock_in(*old(stock)).contains_key(name@) {
            Some(stock_in(*old(stock))[name@])
        } else {
            None
        },
        stock_in(*final(stock)) == stock_in(*old(stock)).remove(name@),
{
    stock.remove(name)
}

/// `HashMap::insert` with the FNV hasher: the stock holds the amount under
/// the name afterwards, besides what it held under other names.
#[verifier::external_body]
fn stock_insert(stock: &mut FnvHashMap<Vec<char>, u64>, name: Vec<char>, amount: u64)
    ensures
        stock_in(*final(stock)) == stock_in(*old(stock)).insert(name@, amount),
{
    stock.insert(name, amount);
}

/// `HashMap::is_empty` with the FNV hasher: whether the stock holds nothing.
#[verifier::external_body]
fn stock_is_empty(stock: &FnvHashMap<Vec<char>, u64>) -> (empty: bool)
    ensures
        empty == (stock_in(*stock) == no_stock()),
{
    stock.is_empty()
}

/// The book that the lines of a text make: a reaction on every line that
/// holds more than white space, each under the name of the chemical that it
/// makes. A later reaction takes the place of an earlier one that makes the
/// same chemical. The first line that is no reaction decides the error.
pub open spec fn book_of(rows: Seq<Seq<char>>) -> Result<Map<Seq<char>, RecipeModel>, ChemistryError>
    decreases rows.len(),
{
    if rows.len() == 0 {
        Ok(Map::<Seq<char>, RecipeModel>::empty())
    } else {
        match book_of(rows.drop_last()) {
            Err(error) => Err(error),
            Ok(before) => if trimmed(rows.last()).len() == 0 {
                Ok(before)
            } else {
                match recipe_of(trimmed(rows.last())) {
                    Err(error) => Err(error),
                    Ok(recipe) => Ok(before.insert(recipe.result.name, recipe)),
                }
            },
        }
    }
}

/// Where the first lines fail, the whole text fails in the same way.
proof fn lemma_book_of_fails_on(rows: Seq<Seq<char>>, n: int)
    requires
        0 <= n <= rows.len(),
    ensures
        book_of(rows.take(n)) matches Err(error) ==> book_of(rows) == Err::<
            Map<Seq<char>, RecipeModel>,
            ChemistryError,
        >(error),
    decreases rows.len() - n,
{
    if n == rows.len() {
        assert(rows.take(n) =~= rows);
    } else {
        lemma_book_of_fails_on(rows.drop_last(), n);
        assert(rows.drop_last().take(n) =~= rows.take(n));
    }
}

/// Reads the reactions of a text, one on each line, such as
/// `7 A, 1 B => 1 C`.
pub fn parse(input: &str) -> (r: Result<FnvHashMap<Vec<char>, Recipe>, ChemistryError>)
    ensures
        match book_of(lines_of(input@)) {
            Ok(recipes) => r matches Ok(book) && recipes_in(book) == recipes,
            Err(error) => r matches Err(e) && e == error,
        },
{
    let text = chars_of(input);
    let rows = lines(text.as_slice());
    let mut book = book_new();
    let mut i: usize = 0;
    let ghost all = texts_of(rows@);
    while i < rows.len()
        invariant
            i <= rows@.len(),
            all == texts_of(rows@),
            all == lines_of(input@),
            book_of(all.take(i as int)) == Ok::<Map<Seq<char>, RecipeModel>, ChemistryError>(
                recipes_in(book),
            ),
        decreases rows@.len() - i,
    {
        assert(all.take(i + 1).drop_last() =~= all.take(i as int));
        proof {
            lemma_book_of_fails_on(all, i + 1);
        }
        let line = trim(rows[i].as_slice());
        if line.len() > 0 {
            let recipe = Recipe::parse(line.as_slice())?;
            let name = recipe.result().name();
            let name = slice_of(name, 0, name.len());
            assert(name@ =~= recipe@.result.name);
            book_insert(&mut book, name, recipe);
        }
        i += 1;
    }
    assert(all.take(all.len() as int) =~= all);
    Ok(book)
}

/// The name of ore, the one chemical that no reaction makes.
pub open spec fn ore_name() -> Seq<char> {
    seq!['O', 'R', 'E']
}

/// The name of fuel.
pub open spec fn fuel_name() -> Seq<char> {
    seq!['F', 'U', 'E', 'L']
}

/// The most chemicals that are taken from the list of needs in one go.
pub const STEP_LIMIT: u64 = u64::MAX;

/// The most units of fuel that are made one by one.
pub const FUEL_LIMIT: u64 = u64::MAX;

/// The ore that is there at the beginning of the second part of the puzzle.
pub const INITIAL_ORE: u64 = 1000000000000;

/// Why the reactions did not give an answer.
#[derive(Debug, Clone, Copy, PartialEq, Eq, Structural)]
pub enum ReactionError {
    /// A chemical other than ore is needed that no reaction makes.
    UnknownChemical,
    /// An amount is no `u64`.
    Overflow,
    /// More chemicals were needed, one after the other, than
    /// [`STEP_LIMIT`], or more fuel was made than [`FUEL_LIMIT`].
    OutOfSteps,
    /// Fuel costs no ore at all.
    FreeFuel,
}

/// The state of the factory: what is still needed, the last need being the
/// next to be met; what is left over from earlier reactions; and the ore that
/// is left.
pub struct Factory {
    pub needs: Seq<ChemicalModel>,
    pub stock: Map<Seq<char>, u64>,
    pub ore: nat,
}

/// The amounts of a list of chemicals, each `repeat` times, or `None` where
/// one of the products is no `u64`.
pub open spec fn scaled(input: Seq<ChemicalModel>, repeat: nat) -> Option<Seq<ChemicalModel>>
    decreases input.len(),
{
    if input.len() == 0 {
        Some(Seq::<ChemicalModel>::empty())
    } else {
        match scaled(input.drop_last(), repeat) {
            None => None,
            Some(before) => if input.last().amount * repeat > u64::MAX {
                None
            } else {
                Some(
                    before.push(
                        ChemicalModel { name: input.last().name, amount: input.last().amount * repeat },
                    ),
                )
            },
        }
    }
}

/// What meeting the next need makes of the factory. Ore is taken from the
/// ore that is left; where that is not enough, the factory is starved, which
/// the `bool` says, and the need is dropped. Another chemical is taken from
/// what is left over of it, as far as that goes; where nothing is left over,
/// its reaction is run as often as the need asks for, what it makes too much
/// is left over, and what it takes is needed in its turn.
pub open spec fn met(book: Map<Seq<char>, RecipeModel>, factory: Factory) -> Result<
    (Factory, bool),
    ReactionError,
>
    recommends
        factory.needs.len() > 0,
{
    let top = factory.needs.last();
    let rest = factory.needs.drop_last();
    if top.name == ore_name() {
        if top.amount <= factory.ore {
            Ok((Factory { needs: rest, ore: (factory.ore - top.amount) as nat, ..factory }, false))
        } else {
            Ok((Factory { needs: rest, ..factory }, true))
        }
    } else if factory.stock.contains_key(top.name) {
        let remains = factory.stock[top.name];
        let stock = factory.stock.remove(top.name);
        if remains > top.amount {
            Ok(
                (
                    Factory {
                        needs: rest,
                        stock: stock.insert(top.name, (remains - top.amount) as u64),
                        ..factory
                    },
                    false,
                ),
            )
        } else if top.amount > remains {
            Ok(
                (
                    Factory {
                        needs: rest.push(
                            ChemicalModel {
                                name: top.name,
                                amount: (top.amount - remains) as nat,
                            },
                        ),
                        stock,
                        ..factory
                    },
                    false,
                ),
            )
        } else {
            Ok((Factory { needs: rest, stock, ..factory }, false))
        }
    } else if !book.contains_key(top.name) {
        Err(ReactionError::UnknownChemical)
    } else {
        let recipe = book[top.name];
        let made = recipe.result.amount;
        let left = top.amount % made;
        let repeat = top.amount / made + if left > 0 {
            1nat
        } else {
            0nat
        };
        let stock = if left > 0 {
            factory.stock.insert(top.name, (made - left) as u64)
        } else {
            factory.stock
        };
        match scaled(recipe.input, repeat) {
            None => Err(ReactionError::Overflow),
            Some(taken) => Ok((Factory { needs: rest + taken, stock, ..factory }, false)),
        }
    }
}

/// What the factory comes to when one need after the other is met, for at
/// most `steps` needs: nothing is needed any more, or the factory is
/// starved, which the `bool` says.
pub open spec fn settled(book: Map<Seq<char>, RecipeModel>, factory: Factory, steps: nat) -> Result<
    (Factory, bool),
    ReactionError,
>
    decreases steps,
{
    if factory.needs.len() == 0 {
        Ok((factory, false))
    } else if steps == 0 {
        Err(ReactionError::OutOfSteps)
    } else {
        match met(book, factory) {
            Err(error) => Err(error),
            Ok((after, true)) => Ok((after, true)),
            Ok((after, false)) => settled(book, after, (steps - 1) as nat),
        }
    }
}

/// Whether a name is the name of ore.
fn is_ore(name: &[char]) -> (r: bool)
    ensures
        r == (name@ == ore_name()),
{
    let r = name.len() == 3 && name[0] == 'O' && name[1] == 'R' && name[2] == 'E';
    assert(r == (name@ =~= ore_name()));
    r
}

/// The name of fuel.
fn fuel() -> (name: Vec<char>)
    ensures
        name@ == fuel_name(),
{
    let mut name: Vec<char> = Vec::new();
    name.push('F');
    name.push('U');
    name.push('E');
    name.push('L');
    name
}

/// A copy of a name.
fn copy_name(name: &[char]) -> (copy: Vec<char>)
    ensures
        copy@ == name@,
{
    let copy = slice_of(name, 0, name.len());
    copy
}

/// Meets the needs of the factory one after the other, until nothing is
/// needed any more or the ore does not suffice. Returns whether the ore did
/// not suffice.
fn settle(
    book: &FnvHashMap<Vec<char>, Recipe>,
    needs: &mut Vec<Chemical>,
    stock: &mut FnvHashMap<Vec<char>, u64>,
    ore: &mut u64,
) -> (r: Result<bool, ReactionError>)
    ensures
        match settled(
            recipes_in(*book),
            Factory {
                needs: models_of(old(needs)@),
                stock: stock_in(*old(stock)),
                ore: *old(ore) as nat,
            },
            STEP_LIMIT as nat,
        ) {
            Err(error) => r == Err::<bool, ReactionError>(error),
            Ok((after, starved)) => {
                &&& r == Ok::<bool, ReactionError>(starved)
                &&& models_of(final(needs)@) == after.needs
                &&& stock_in(*final(stock)) == after.stock
                &&& *final(ore) == after.ore
            },
        },
{
    let ghost whole = settled(
        recipes_in(*book),
        Factory { needs: models_of(needs@), stock: stock_in(*stock), ore: *ore as nat },
        STEP_LIMIT as nat,
    );
    let mut steps: u64 = STEP_LIMIT;
    loop
        invariant
            settled(
                recipes_in(*book),
                Factory { needs: models_of(needs@), stock: stock_in(*stock), ore: *ore as nat },
                steps as nat,
            ) == whole,
            whole == settled(
                recipes_in(*book),
                Factory {
                    needs: models_of(old(needs)@),
                    stock: stock_in(*old(stock)),
                    ore: *old(ore) as nat,
                },
                STEP_LIMIT as nat,
            ),
        decreases steps,
    {
        let ghost factory = Factory {
            needs: models_of(needs@),
            stock: stock_in(*stock),
            ore: *ore as nat,
        };
        let top = match needs.pop() {
            Some(top) => top,
            None => {
                return Ok(false);
            },
        };
        assert(models_of(needs@) =~= factory.needs.drop_last());
        if steps == 0 {
            return Err(ReactionError::OutOfSteps);
        }
        steps -= 1;
        let chem = top.name();
        let amount = top.amount();
        if is_ore(chem) {
            match (*ore).checked_sub(amount) {
                Some(remain) => {
                    *ore = remain;
                    continue ;
                },
                None => {
                    return Ok(true);
                },
            }
        }
        if let Some(remains) = stock_remove(stock, chem) {
            if remains > amount {
                stock_insert(stock, copy_name(chem), remains - amount);
            } else if amount > remains {
                let ghost rest = models_of(needs@);
                let needed = Chemical { name: copy_name(chem), amount: amount - remains };
                let ghost model = needed@;
                needs.push(needed);
                assert(models_of(needs@) =~= rest.push(model));
            }
            continue ;
        }
        assert(stock_in(*stock) =~= factory.stock);
        let recipe = match book_get(book, chem) {
            Some(recipe) => recipe,
            None => {
                return Err(ReactionError::UnknownChemical);
            },
        };
        let made = recipe.result().amount();
        let left = amount % made;
        let whole_runs = amount / made;
        assert(left > 0 ==> whole_runs < u64::MAX) by (nonlinear_arith)
            requires
                made > 0,
                left == (amount as int) % (made as int),
                whole_runs == (amount as int) / (made as int),
                amount <= u64::MAX,
        ;
        let repeat = if left > 0 {
            stock_insert(stock, copy_name(chem), made - left);
            1
        } else {
            0
        } + whole_runs;

        let input = recipe.input();
        let ghost rest = models_of(needs@);
        let ghost stocked = stock_in(*stock);
        let mut i: usize = 0;
        assert(repeat > 0) by (nonlinear_arith)
            requires
                amount > 0,
                made > 0,
                left == amount % made,
                repeat == (amount as int) / (made as int) + if left > 0 {
                    1int
                } else {
                    0int
                },
        ;
        while i < input.len()
            invariant
                i <= input@.len(),
                repeat > 0,
                models_of(input@) == recipe@.input,
                stocked == stock_in(*stock),
                scaled(recipe@.input.take(i as int), repeat as nat) matches Some(taken)
                    && models_of(needs@) == rest + taken,
                whole == match scaled(recipe@.input, repeat as nat) {
                    None => Err::<(Factory, bool), ReactionError>(ReactionError::Overflow),
                    Some(taken) => settled(
                        recipes_in(*book),
                        Factory { needs: rest + taken, stock: stocked, ore: *ore as nat },
                        steps as nat,
                    ),
                },
                whole == settled(
                    recipes_in(*book),
                    Factory {
                        needs: models_of(old(needs)@),
                        stock: stock_in(*old(stock)),
                        ore: *old(ore) as nat,
                    },
                    STEP_LIMIT as nat,
                ),
            decreases input@.len() - i,
        {
            let ghost before = models_of(needs@);
            assert(recipe@.input.take(i + 1).drop_last() =~= recipe@.input.take(i as int));
            proof {
                lemma_scaled_fails_on(recipe@.input, i + 1, repeat as nat);
            }
            let scaled_amount = match input[i].amount().checked_mul(repeat) {
                Some(product) => product,
                None => {
                    return Err(ReactionError::Overflow);
                },
            };
            assert(scaled_amount > 0) by (nonlinear_arith)
                requires
                    scaled_amount == input@[i as int]@.amount * repeat,
                    input@[i as int]@.amount > 0,
                    repeat > 0,
            ;
            let needed = Chemical { name: copy_name(input[i].name()), amount: scaled_amount };
            let ghost model = needed@;
            needs.push(needed);
            assert(models_of(needs@) =~= before.push(model));
            i += 1;
        }
        assert(recipe@.input.take(recipe@.input.len() as int) =~= recipe@.input);
    }
}

/// Where the first chemicals of a list cannot be scaled, the whole list
/// cannot.
proof fn lemma_scaled_fails_on(input: Seq<ChemicalModel>, n: int, repeat: nat)
    requires
        0 <= n <= input.len(),
    ensures
        scaled(input.take(n), repeat) is None ==> scaled(input, repeat) is None,
    decreases input.len() - n,
{
    if n == input.len() {
        assert(input.take(n) =~= input);
    } else {
        lemma_scaled_fails_on(input.drop_last(), n, repeat);
        assert(input.drop_last().take(n) =~= input.take(n));
    }
}

/// The need for one unit of fuel.
pub open spec fn one_fuel() -> Seq<ChemicalModel> {
    seq![ChemicalModel { name: fuel_name(), amount: 1 }]
}

/// The ore that one unit of fuel costs when the factory begins with nothing
/// left over.
pub open spec fn ore_for_fuel(book: Map<Seq<char>, RecipeModel>) -> Result<nat, ReactionError> {
    match settled(
        book,
        Factory { needs: one_fuel(), stock: no_stock(), ore: u64::MAX as nat },
        STEP_LIMIT as nat,
    ) {
        Err(error) => Err(error),
        Ok((_, true)) => Err(ReactionError::Overflow),
        Ok((after, false)) => Ok((u64::MAX - after.ore) as nat),
    }
}

/// What a result says in the terms of the model.
pub open spec fn outcome(r: Result<u64, ReactionError>) -> Result<nat, ReactionError> {
    match r {
        Ok(amount) => Ok(amount as nat),
        Err(error) => Err(error),
    }
}

/// The need for one unit of fuel.
fn need_one_fuel() -> (needs: Vec<Chemical>)
    ensures
        models_of(needs@) == one_fuel(),
{
    let mut needs: Vec<Chemical> = Vec::new();
    needs.push(Chemical { name: fuel(), amount: 1 });
    needs
}

/// The ore that one unit of fuel costs.
pub fn part1(recipes: &FnvHashMap<Vec<char>, Recipe>) -> (r: Result<u64, ReactionError>)
    ensures
        outcome(r) == ore_for_fuel(recipes_in(*recipes)),
{
    let mut ore: u64 = u64::MAX;
    let mut leftovers = stock_new();
    let mut needs = need_one_fuel();
    if settle(recipes, &mut needs, &mut leftovers, &mut ore)? {
        return Err(ReactionError::Overflow);
    }
    Ok(u64::MAX - ore)
}

/// The fuel that the factory makes from the ore that is left, one unit
/// after the other, for at most `rounds` units. `produced` is what was made
/// before. A unit whose last need starves the factory counts as made.
///
/// The first time that nothing is left over after a unit, the factory is in
/// the state in which it began, but for the ore: all that was made so far is
/// then made again as often as the ore allows, at once. `checked` says
/// whether that has happened.
pub open spec fn fuel_made(
    book: Map<Seq<char>, RecipeModel>,
    stock: Map<Seq<char>, u64>,
    ore: nat,
    produced: nat,
    checked: bool,
    rounds: nat,
) -> Result<nat, ReactionError>
    decreases rounds,
{
    if rounds == 0 {
        Err(ReactionError::OutOfSteps)
    } else {
        match settled(book, Factory { needs: one_fuel(), stock, ore }, STEP_LIMIT as nat) {
            Err(error) => Err(error),
            Ok((after, _)) => if after.needs.len() > 0 {
                Ok(produced)
            } else if produced + 1 > u64::MAX {
                Err(ReactionError::Overflow)
            } else if !checked && after.stock == no_stock() {
                let per_batch = INITIAL_ORE - after.ore;
                if per_batch <= 0 {
                    Err(ReactionError::FreeFuel)
                } else {
                    let batches = after.ore as int / per_batch;
                    if (produced + 1) + batches * (produced + 1) > u64::MAX {
                        Err(ReactionError::Overflow)
                    } else {
                        fuel_made(
                            book,
                            after.stock,
                            (after.ore - batches * per_batch) as nat,
                            ((produced + 1) + batches * (produced + 1)) as nat,
                            true,
                            (rounds - 1) as nat,
                        )
                    }
                }
            } else {
                fuel_made(
                    book,
                    after.stock,
                    after.ore,
                    produced + 1,
                    checked,
                    (rounds - 1) as nat,
                )
            },
        }
    }
}

/// The fuel that the factory makes from a trillion units of ore.
pub open spec fn fuel_for_ore(book: Map<Seq<char>, RecipeModel>) -> Result<nat, ReactionError> {
    fuel_made(book, no_stock(), INITIAL_ORE as nat, 0, false, FUEL_LIMIT as nat)
}

/// The fuel that the factory makes from a trillion units of ore.
pub fn part2(recipes: &FnvHashMap<Vec<char>, Recipe>) -> (r: Result<u64, ReactionError>)
    ensures
        outcome(r) == fuel_for_ore(recipes_in(*recipes)),
{
    let mut ore_remaining: u64 = INITIAL_ORE;
    let mut leftovers = stock_new();
    let mut needs: Vec<Chemical> = Vec::new();
    let mut fuel_produced: u64 = 0;
    let mut has_done_leftovers_check = false;
    let ghost whole = fuel_for_ore(recipes_in(*recipes));

    let mut rounds: u64 = FUEL_LIMIT;
    while rounds > 0
        invariant
            needs@.len() == 0,
            ore_remaining <= INITIAL_ORE,
            fuel_made(
                recipes_in(*recipes),
                stock_in(leftovers),
                ore_remaining as nat,
                fuel_produced as nat,
                has_done_leftovers_check,
                rounds as nat,
            ) == whole,
            whole == fuel_for_ore(recipes_in(*recipes)),
        decreases rounds,
    {
        needs = need_one_fuel();
        proof {
            lemma_settled_spends_ore(
                recipes_in(*recipes),
                Factory {
                    needs: one_fuel(),
                    stock: stock_in(leftovers),
                    ore: ore_remaining as nat,
                },
                STEP_LIMIT as nat,
            );
        }
        settle(recipes, &mut needs, &mut leftovers, &mut ore_remaining)?;

        if needs.len() == 0 {
            fuel_produced = match fuel_produced.checked_add(1) {
                Some(produced) => produced,
                None => {
                    return Err(ReactionError::Overflow);
                },
            };

            if !has_done_leftovers_check && stock_is_empty(&leftovers) {
                has_done_leftovers_check = true;

                let ore_per_batch = INITIAL_ORE - ore_remaining;
                if ore_per_batch == 0 {
                    return Err(ReactionError::FreeFuel);
                }
                let extra_full_batches = ore_remaining / ore_per_batch;
                let extra = match extra_full_batches.checked_mul(fuel_produced) {
                    Some(extra) => extra,
                    None => {
                        return Err(ReactionError::Overflow);
                    },
                };
                fuel_produced = match fuel_produced.checked_add(extra) {
                    Some(produced) => produced,
                    None => {
                        return Err(ReactionError::Overflow);
                    },
                };
                assert(extra_full_batches * ore_per_batch <= ore_remaining) by (nonlinear_arith)
                    requires
                        ore_per_batch > 0,
                        extra_full_batches == (ore_remaining as int) / (ore_per_batch as int),
                ;
                ore_remaining -= extra_full_batches * ore_per_batch;
            }
        } else {
            return Ok(fuel_produced);
        }
        rounds -= 1;
    }
    Err(ReactionError::OutOfSteps)
}

/// Meeting needs never makes ore.
proof fn lemma_settled_spends_ore(book: Map<Seq<char>, RecipeModel>, factory: Factory, steps: nat)
    ensures
        settled(book, factory, steps) matches Ok((after, _)) ==> after.ore <= factory.ore,
    decreases steps,
{
    if factory.needs.len() > 0 && steps > 0 {
        match met(book, factory) {
            Ok((after, false)) => {
                lemma_settled_spends_ore(book, after, (steps - 1) as nat);
            },
            _ => {},
        }
    }
}

} // verus!
