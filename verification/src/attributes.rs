//! Typed search attributes: values, collections and the schema that types them.

use vstd::prelude::*;
use vstd::string::*;

use crate::text::same_text;
use crate::timestamp::Timestamp;

verus! {

/// A double-precision number, held by its IEEE 754 bits.
#[derive(Clone, Copy, Debug, PartialEq, Eq, Structural)]
pub struct FloatBits {
    /// Sign, exponent and fraction, from the most significant bit down.
    pub bits: u64,
}

/// Place on the number line of a double: `None` for a value that is not a number. Positive and
/// negative zero share a place, and places grow with the numbers.
pub open spec fn float_place(float: FloatBits) -> Option<int> {
    let sign_bit = 0x8000_0000_0000_0000u64;
    let infinity = 0x7ff0_0000_0000_0000u64;
    let magnitude = if float.bits >= sign_bit {
        float.bits - sign_bit
    } else {
        float.bits as int
    };
    if magnitude > infinity {
        None
    } else if float.bits >= sign_bit {
        Some(-magnitude)
    } else {
        Some(magnitude)
    }
}

impl FloatBits {
    /// The double with the given bits.
    pub fn from_bits(bits: u64) -> (float: Self)
        ensures
            float.bits == bits,
    {
        FloatBits { bits }
    }

    fn place(&self) -> (place: Option<i64>)
        ensures
            match float_place(*self) {
                Some(p) => place matches Some(q) && p == q,
                None => place is None,
            },
    {
        let sign_bit: u64 = 0x8000_0000_0000_0000;
        let infinity: u64 = 0x7ff0_0000_0000_0000;
        let negative = self.bits >= sign_bit;
        let magnitude: u64 = if negative {
            self.bits - sign_bit
        } else {
            self.bits
        };
        if magnitude > infinity {
            None
        } else if negative {
            Some(-(magnitude as i64))
        } else {
            Some(magnitude as i64)
        }
    }

    /// Whether this number is smaller than `other`.
    pub fn less_than(&self, other: &Self) -> (less: bool)
        ensures
            less == (float_place(*self) matches Some(a) && float_place(*other) matches Some(b) && a
                < b),
    {
        match (self.place(), other.place()) {
            (Some(a), Some(b)) => a < b,
            _ => false,
        }
    }

    /// Whether both are numbers and equal.
    pub fn equals(&self, other: &Self) -> (equal: bool)
        ensures
            equal == (float_place(*self) matches Some(a) && float_place(*other) matches Some(b) && a
                == b),
    {
        match (self.place(), other.place()) {
            (Some(a), Some(b)) => a == b,
            _ => false,
        }
    }
}

/// Type of a search attribute.
#[derive(Clone, Copy, Debug, PartialEq, Eq, Structural)]
pub enum SearchAttributeType {
    /// Text.
    String,
    /// Signed integer.
    Int,
    /// Double-precision number.
    Float,
    /// Instant.
    Datetime,
    /// List of keywords.
    KeywordList,
}

/// Typed value of a search attribute.
#[derive(Debug, PartialEq, Eq)]
pub enum SearchAttributeValue {
    /// Text.
    String(String),
    /// Signed integer.
    Int(i64),
    /// Double-precision number.
    Float(FloatBits),
    /// Instant.
    Datetime(Timestamp),
    /// List of keywords.
    KeywordList(Vec<String>),
}

/// Mathematical value of a [`SearchAttributeValue`].
pub enum SearchAttributeValueView {
    /// Text.
    String(Seq<char>),
    /// Signed integer.
    Int(i64),
    /// Double-precision number.
    Float(FloatBits),
    /// Instant.
    Datetime(Timestamp),
    /// List of keywords.
    KeywordList(Seq<Seq<char>>),
}

/// Texts of a list of strings.
pub open spec fn texts(strings: Seq<String>) -> Seq<Seq<char>> {
    strings.map_values(|s: String| s@)
}

impl View for SearchAttributeValue {
    type V = SearchAttributeValueView;

    open spec fn view(&self) -> SearchAttributeValueView {
        match self {
            SearchAttributeValue::String(text) => SearchAttributeValueView::String(text@),
            SearchAttributeValue::Int(number) => SearchAttributeValueView::Int(*number),
            SearchAttributeValue::Float(float) => SearchAttributeValueView::Float(*float),
            SearchAttributeValue::Datetime(instant) => SearchAttributeValueView::Datetime(*instant),
            SearchAttributeValue::KeywordList(keywords) => SearchAttributeValueView::KeywordList(
                texts(keywords@),
            ),
        }
    }
}

impl SearchAttributeValueView {
    /// Type of the value.
    pub open spec fn kind(self) -> SearchAttributeType {
        match self {
            SearchAttributeValueView::String(_) => SearchAttributeType::String,
            SearchAttributeValueView::Int(_) => SearchAttributeType::Int,
            SearchAttributeValueView::Float(_) => SearchAttributeType::Float,
            SearchAttributeValueView::Datetime(_) => SearchAttributeType::Datetime,
            SearchAttributeValueView::KeywordList(_) => SearchAttributeType::KeywordList,
        }
    }

    /// Equality of values: doubles compare as numbers, everything else by what it holds.
    pub open spec fn equals(self, other: Self) -> bool {
        match (self, other) {
            (
                SearchAttributeValueView::Float(a),
                SearchAttributeValueView::Float(b),
            ) => float_place(a) matches Some(x) && float_place(b) matches Some(y) && x == y,
            _ => self == other,
        }
    }

    /// `self` is greater than `other`: both hold integers, both doubles or both instants.
    pub open spec fn greater_than(self, other: Self) -> bool {
        match (self, other) {
            (SearchAttributeValueView::Int(a), SearchAttributeValueView::Int(b)) => a > b,
            (
                SearchAttributeValueView::Float(a),
                SearchAttributeValueView::Float(b),
            ) => float_place(a) matches Some(x) && float_place(b) matches Some(y) && x > y,
            (
                SearchAttributeValueView::Datetime(a),
                SearchAttributeValueView::Datetime(b),
            ) => !a.at_most(b),
            _ => false,
        }
    }

    /// `self` is a list of keywords that holds `keyword`.
    pub open spec fn contains_keyword(self, keyword: Seq<char>) -> bool {
        self matches SearchAttributeValueView::KeywordList(keywords) && keywords.contains(keyword)
    }
}

/// Copies a list of strings.
pub fn clone_texts(strings: &Vec<String>) -> (copy: Vec<String>)
    ensures
        copy@ == strings@,
{
    let mut copy: Vec<String> = Vec::new();
    let mut i: usize = 0;
    while i < strings.len()
        invariant
            i <= strings.len(),
            copy@ == strings@.take(i as int),
        decreases strings.len() - i,
    {
        copy.push(strings[i].clone());
        assert(strings@.take(i + 1) =~= strings@.take(i as int).push(strings@[i as int]));
        i += 1;
    }
    assert(strings@.take(i as int) =~= strings@);
    copy
}

fn same_texts(left: &Vec<String>, right: &Vec<String>) -> (same: bool)
    ensures
        same == (texts(left@) == texts(right@)),
{
    if left.len() != right.len() {
        assert(texts(left@).len() != texts(right@).len());
        return false;
    }
    let mut i: usize = 0;
    while i < left.len()
        invariant
            i <= left.len(),
            left.len() == right.len(),
            forall|j: int| 0 <= j < i ==> left@[j]@ == right@[j]@,
        decreases left.len() - i,
    {
        if !same_text(left[i].as_str(), right[i].as_str()) {
            assert(texts(left@)[i as int] != texts(right@)[i as int]);
            return false;
        }
        i += 1;
    }
    assert(texts(left@) =~= texts(right@));
    true
}

impl Clone for SearchAttributeValue {
    fn clone(&self) -> (copy: Self)
        ensures
            copy@ == self@,
    {
        match self {
            SearchAttributeValue::String(text) => SearchAttributeValue::String(text.clone()),
            SearchAttributeValue::Int(number) => SearchAttributeValue::Int(*number),
            SearchAttributeValue::Float(float) => SearchAttributeValue::Float(*float),
            SearchAttributeValue::Datetime(instant) => SearchAttributeValue::Datetime(*instant),
            SearchAttributeValue::KeywordList(keywords) => SearchAttributeValue::KeywordList(
                clone_texts(keywords),
            ),
        }
    }
}

impl SearchAttributeValue {
    /// Type of the value.
    pub fn attribute_type(&self) -> (kind: SearchAttributeType)
        ensures
            kind == self@.kind(),
    {
        match self {
            SearchAttributeValue::String(_) => SearchAttributeType::String,
            SearchAttributeValue::Int(_) => SearchAttributeType::Int,
            SearchAttributeValue::Float(_) => SearchAttributeType::Float,
            SearchAttributeValue::Datetime(_) => SearchAttributeType::Datetime,
            SearchAttributeValue::KeywordList(_) => SearchAttributeType::KeywordList,
        }
    }

    /// Whether two values hold the same.
    pub fn same(&self, other: &Self) -> (same: bool)
        ensures
            same == (self@ == other@),
    {
        match (self, other) {
            (SearchAttributeValue::String(a), SearchAttributeValue::String(b)) => same_text(
                a.as_str(),
                b.as_str(),
            ),
            (SearchAttributeValue::Int(a), SearchAttributeValue::Int(b)) => *a == *b,
            (SearchAttributeValue::Float(a), SearchAttributeValue::Float(b)) => *a == *b,
            (SearchAttributeValue::Datetime(a), SearchAttributeValue::Datetime(b)) => *a == *b,
            (
                SearchAttributeValue::KeywordList(a),
                SearchAttributeValue::KeywordList(b),
            ) => same_texts(a, b),
            _ => false,
        }
    }

    /// Whether two values are equal.
    pub fn equals(&self, other: &Self) -> (equal: bool)
        ensures
            equal == self@.equals(other@),
    {
        match (self, other) {
            (SearchAttributeValue::Float(a), SearchAttributeValue::Float(b)) => a.equals(b),
            _ => self.same(other),
        }
    }

    /// Whether this value is a list of keywords that holds `keyword`.
    pub fn contains_keyword(&self, keyword: &str) -> (contains: bool)
        ensures
            contains == self@.contains_keyword(keyword@),
    {
        match self {
            SearchAttributeValue::KeywordList(keywords) => {
                let mut i: usize = 0;
                while i < keywords.len()
                    invariant
                        i <= keywords.len(),
                        self@ == SearchAttributeValueView::KeywordList(texts(keywords@)),
                        forall|j: int| 0 <= j < i ==> keywords@[j]@ != keyword@,
                    decreases keywords.len() - i,
                {
                    if same_text(keywords[i].as_str(), keyword) {
                        assert(texts(keywords@)[i as int] == keyword@);
                        return true;
                    }
                    i += 1;
                }
                assert(forall|j: int|
                    0 <= j < keywords@.len() ==> #[trigger] texts(keywords@)[j] == keywords@[j]@);
                false
            },
            _ => false,
        }
    }
}

/// Typed values by attribute name.
pub open spec fn attribute_map(entries: Seq<(String, SearchAttributeValue)>) -> Map<
    Seq<char>,
    SearchAttributeValueView,
>
    decreases entries.len(),
{
    if entries.len() == 0 {
        Map::empty()
    } else {
        attribute_map(entries.drop_last()).insert(entries.last().0@, entries.last().1@)
    }
}

/// No name occurs twice.
pub open spec fn names_distinct(entries: Seq<(String, SearchAttributeValue)>) -> bool {
    forall|i: int, j: int|
        #![trigger entries[i], entries[j]]
        0 <= i < j < entries.len() ==> entries[i].0@ != entries[j].0@
}

proof fn attribute_map_holds(entries: Seq<(String, SearchAttributeValue)>, i: int)
    requires
        names_distinct(entries),
        0 <= i < entries.len(),
    ensures
        attribute_map(entries).contains_key(entries[i].0@),
        attribute_map(entries)[entries[i].0@] == entries[i].1@,
    decreases entries.len(),
{
    if i < entries.len() - 1 {
        assert(entries.drop_last()[i] == entries[i]);
        attribute_map_holds(entries.drop_last(), i);
    }
}

proof fn attribute_map_only(entries: Seq<(String, SearchAttributeValue)>, name: Seq<char>)
    requires
        forall|i: int| 0 <= i < entries.len() ==> #[trigger] entries[i].0@ != name,
    ensures
        !attribute_map(entries).contains_key(name),
    decreases entries.len(),
{
    if entries.len() > 0 {
        assert(entries.last() == entries[entries.len() - 1]);
        attribute_map_only(entries.drop_last(), name);
    }
}

proof fn attribute_map_key_index(
    entries: Seq<(String, SearchAttributeValue)>,
    name: Seq<char>,
) -> (i: int)
    requires
        attribute_map(entries).contains_key(name),
    ensures
        0 <= i < entries.len(),
        entries[i].0@ == name,
    decreases entries.len(),
{
    if entries.last().0@ == name {
        entries.len() - 1
    } else {
        attribute_map_key_index(entries.drop_last(), name)
    }
}

proof fn attribute_map_finite(entries: Seq<(String, SearchAttributeValue)>)
    requires
        names_distinct(entries),
    ensures
        attribute_map(entries).dom().finite(),
        attribute_map(entries).len() == entries.len(),
    decreases entries.len(),
{
    if entries.len() > 0 {
        attribute_map_finite(entries.drop_last());
        assert forall|i: int| 0 <= i < entries.drop_last().len() implies #[trigger] entries.drop_last()[i].0@
            != entries.last().0@ by {
            assert(entries[i].0@ != entries[entries.len() - 1].0@);
        }
        attribute_map_only(entries.drop_last(), entries.last().0@);
    }
}

proof fn attribute_map_update(
    entries: Seq<(String, SearchAttributeValue)>,
    i: int,
    entry: (String, SearchAttributeValue),
)
    requires
        names_distinct(entries),
        0 <= i < entries.len(),
        entries[i].0@ == entry.0@,
    ensures
        attribute_map(entries.update(i, entry)) == attribute_map(entries).insert(
            entry.0@,
            entry.1@,
        ),
    decreases entries.len(),
{
    let updated = entries.update(i, entry);
    if i == entries.len() - 1 {
        assert(updated.drop_last() =~= entries.drop_last());
        assert(attribute_map(updated) =~= attribute_map(entries).insert(entry.0@, entry.1@));
    } else {
        assert(updated.drop_last() =~= entries.drop_last().update(i, entry));
        attribute_map_update(entries.drop_last(), i, entry);
        assert(entries.last().0@ != entry.0@) by {
            assert(entries[i].0@ != entries[entries.len() - 1].0@);
        }
        assert(attribute_map(updated) =~= attribute_map(entries).insert(entry.0@, entry.1@));
    }
}

/// Search attributes of a workflow: at most one value per name.
#[derive(Debug)]
pub struct SearchAttributes {
    entries: Vec<(String, SearchAttributeValue)>,
}

impl PartialEq for SearchAttributes {
    fn eq(&self, other: &Self) -> (equal: bool) {
        self.same(other)
    }
}

impl vstd::std_specs::cmp::PartialEqSpecImpl for SearchAttributes {
    open spec fn obeys_eq_spec() -> bool {
        true
    }

    open spec fn eq_spec(&self, other: &Self) -> bool {
        self@ == other@
    }
}

impl Eq for SearchAttributes {

}

impl View for SearchAttributes {
    type V = Map<Seq<char>, SearchAttributeValueView>;

    closed spec fn view(&self) -> Map<Seq<char>, SearchAttributeValueView> {
        attribute_map(self.entries@)
    }
}

impl SearchAttributes {
    #[verifier::type_invariant]
    spec fn distinct(self) -> bool {
        names_distinct(self.entries@)
    }

    /// No attributes.
    pub fn new() -> (attributes: Self)
        ensures
            attributes@ == Map::<Seq<char>, SearchAttributeValueView>::empty(),
    {
        SearchAttributes { entries: Vec::new() }
    }

    /// Number of attributes.
    pub fn len(&self) -> (len: usize)
        ensures
            len == self@.len(),
            self@.dom().finite(),
    {
        proof {
            use_type_invariant(self);
            attribute_map_finite(self.entries@);
        }
        self.entries.len()
    }

    /// The attributes with their names, each name once.
    pub fn entries(&self) -> (entries: &Vec<(String, SearchAttributeValue)>)
        ensures
            attribute_map(entries@) == self@,
            names_distinct(entries@),
    {
        proof {
            use_type_invariant(self);
        }
        &self.entries
    }

    /// Whether there is no attribute.
    pub fn is_empty(&self) -> (empty: bool)
        ensures
            empty == (self@ == Map::<Seq<char>, SearchAttributeValueView>::empty()),
    {
        proof {
            use_type_invariant(self);
            if self.entries@.len() > 0 {
                attribute_map_holds(self.entries@, 0);
            }
        }
        self.entries.len() == 0
    }

    /// The value under `name`, if there is one.
    pub fn get(&self, name: &str) -> (value: Option<&SearchAttributeValue>)
        ensures
            value is Some <==> self@.contains_key(name@),
            value matches Some(v) ==> v@ == self@[name@],
    {
        proof {
            use_type_invariant(self);
        }
        let mut i: usize = 0;
        while i < self.entries.len()
            invariant
                i <= self.entries.len(),
                names_distinct(self.entries@),
                forall|j: int| 0 <= j < i ==> #[trigger] self.entries@[j].0@ != name@,
            decreases self.entries.len() - i,
        {
            if same_text(self.entries[i].0.as_str(), name) {
                proof {
                    attribute_map_holds(self.entries@, i as int);
                }
                return Some(&self.entries[i].1);
            }
            i += 1;
        }
        proof {
            attribute_map_only(self.entries@, name@);
        }
        None
    }

    /// Puts `value` under `name`, in place of an earlier one.
    pub fn insert(&mut self, name: String, value: SearchAttributeValue)
        ensures
            final(self)@ == old(self)@.insert(name@, value@),
    {
        proof {
            use_type_invariant(&*self);
        }
        let mut entries: Vec<(String, SearchAttributeValue)> = Vec::new();
        core::mem::swap(&mut entries, &mut self.entries);
        let ghost before = entries@;
        let mut i: usize = 0;
        while i < entries.len()
            invariant
                i <= entries.len(),
                entries@ == before,
                names_distinct(before),
                forall|j: int| 0 <= j < i ==> #[trigger] before[j].0@ != name@,
                self.entries@.len() == 0,
                attribute_map(before) == old(self)@,
            decreases entries.len() - i,
        {
            if same_text(entries[i].0.as_str(), name.as_str()) {
                proof {
                    attribute_map_update(before, i as int, (name, value));
                }
                entries.set(i, (name, value));
                assert(entries@ =~= before.update(i as int, (name, value)));
                assert(names_distinct(entries@));
                self.entries = entries;
                return;
            }
            i += 1;
        }
        let ghost entry = (name, value);
        entries.push((name, value));
        assert(entries@.drop_last() =~= before);
        assert(names_distinct(entries@)) by {
            assert forall|a: int, b: int|
                #![trigger entries@[a], entries@[b]]
                0 <= a < b < entries@.len() implies entries@[a].0@ != entries@[b].0@ by {
                assert(before[a].0@ != entry.0@);
            }
        }
        self.entries = entries;
    }

    /// Puts every attribute of `other` here, in place of earlier ones of the same names.
    pub fn extend(&mut self, other: &SearchAttributes)
        ensures
            final(self)@ == old(self)@.union_prefer_right(other@),
    {
        let ghost start = self@;
        let mut i: usize = 0;
        proof {
            use_type_invariant(other);
            assert(other.entries@.take(0) =~= Seq::empty());
            assert(self@ =~= start.union_prefer_right(attribute_map(other.entries@.take(0))));
        }
        while i < other.entries.len()
            invariant
                i <= other.entries.len(),
                self@ == start.union_prefer_right(attribute_map(other.entries@.take(i as int))),
            decreases other.entries.len() - i,
        {
            self.insert(other.entries[i].0.clone(), other.entries[i].1.clone());
            proof {
                let next = other.entries@.take(i + 1);
                assert(next.drop_last() =~= other.entries@.take(i as int));
                assert(self@ =~= start.union_prefer_right(attribute_map(next)));
            }
            i += 1;
        }
        assert(other.entries@.take(i as int) =~= other.entries@);
    }

    /// Whether both hold the same values under the same names.
    pub fn same(&self, other: &Self) -> (same: bool)
        ensures
            same == (self@ == other@),
    {
        proof {
            use_type_invariant(self);
            use_type_invariant(other);
            attribute_map_finite(self.entries@);
            attribute_map_finite(other.entries@);
        }
        if self.entries.len() != other.entries.len() {
            return false;
        }
        let mut i: usize = 0;
        while i < self.entries.len()
            invariant
                i <= self.entries.len(),
                names_distinct(self.entries@),
                forall|j: int|
                    #![trigger self.entries@[j]]
                    0 <= j < i ==> other@.contains_key(self.entries@[j].0@)
                        && other@[self.entries@[j].0@] == self.entries@[j].1@,
            decreases self.entries.len() - i,
        {
            proof {
                attribute_map_holds(self.entries@, i as int);
            }
            match other.get(self.entries[i].0.as_str()) {
                Some(value) => {
                    if !value.same(&self.entries[i].1) {
                        return false;
                    }
                },
                None => {
                    return false;
                },
            }
            i += 1;
        }
        proof {
            assert(self@.dom().subset_of(other@.dom())) by {
                assert forall|name: Seq<char>| self@.dom().contains(name) implies other@.dom().contains(
                    name,
                ) by {
                    let j = attribute_map_key_index(self.entries@, name);
                    assert(other@.contains_key(self.entries@[j].0@));
                }
            }
            vstd::set_lib::lemma_subset_equality(self@.dom(), other@.dom());
            assert(self@ =~= other@) by {
                assert forall|name: Seq<char>| self@.dom().contains(name) implies self@[name]
                    == other@[name] by {
                    let j = attribute_map_key_index(self.entries@, name);
                    attribute_map_holds(self.entries@, j);
                    assert(other@.contains_key(self.entries@[j].0@));
                }
            }
        }
        true
    }

    /// Checks every attribute against `schema`. A refusal names one that the schema refuses.
    pub fn check(&self, schema: &SearchAttributeSchema) -> (checked: Result<
        (),
        SearchAttributeError,
    >)
        ensures
            checked is Ok <==> accepted(self@, schema@),
            checked matches Err(error) ==> exists|name: Seq<char>| #[trigger]
                self@.contains_key(name) && refusal(schema@, name, self@[name]) == Some(error@),
    {
        proof {
            use_type_invariant(self);
        }
        let mut i: usize = 0;
        while i < self.entries.len()
            invariant
                i <= self.entries.len(),
                names_distinct(self.entries@),
                forall|j: int|
                    0 <= j < i ==> refusal(
                        schema@,
                        (#[trigger] self.entries@[j]).0@,
                        self.entries@[j].1@,
                    ) is None,
            decreases self.entries.len() - i,
        {
            proof {
                attribute_map_holds(self.entries@, i as int);
            }
            match schema.validate(self.entries[i].0.as_str(), &self.entries[i].1) {
                Ok(()) => {},
                Err(error) => {
                    assert(self@.contains_key(self.entries@[i as int].0@));
                    return Err(error);
                },
            }
            i += 1;
        }
        proof {
            assert forall|name: Seq<char>| #[trigger] self@.contains_key(name) implies refusal(
                schema@,
                name,
                self@[name],
            ) is None by {
                let j = attribute_map_key_index(self.entries@, name);
                attribute_map_holds(self.entries@, j);
                assert(refusal(schema@, self.entries@[j].0@, self.entries@[j].1@) is None);
            }
        }
        Ok(())
    }
}

impl Clone for SearchAttributes {
    fn clone(&self) -> (copy: Self)
        ensures
            copy@ == self@,
    {
        let mut copy = SearchAttributes::new();
        copy.extend(self);
        assert(copy@ =~= self@);
        copy
    }
}

/// Refusals of the schema.
#[derive(Debug, PartialEq, Eq)]
pub enum SearchAttributeError {
    /// The name is not registered.
    Unregistered {
        /// Attribute name.
        name: String,
    },
    /// The value does not have the registered type.
    TypeMismatch {
        /// Attribute name.
        name: String,
        /// Registered type.
        expected: SearchAttributeType,
        /// Type of the value.
        actual: SearchAttributeType,
    },
}

/// Mathematical value of a [`SearchAttributeError`].
pub enum SearchAttributeErrorView {
    /// The name is not registered.
    Unregistered {
        /// Attribute name.
        name: Seq<char>,
    },
    /// The value does not have the registered type.
    TypeMismatch {
        /// Attribute name.
        name: Seq<char>,
        /// Registered type.
        expected: SearchAttributeType,
        /// Type of the value.
        actual: SearchAttributeType,
    },
}

impl View for SearchAttributeError {
    type V = SearchAttributeErrorView;

    open spec fn view(&self) -> SearchAttributeErrorView {
        match self {
            SearchAttributeError::Unregistered { name } => SearchAttributeErrorView::Unregistered {
                name: name@,
            },
            SearchAttributeError::TypeMismatch {
                name,
                expected,
                actual,
            } => SearchAttributeErrorView::TypeMismatch {
                name: name@,
                expected: *expected,
                actual: *actual,
            },
        }
    }
}

/// What the schema objects to in a value, if anything.
pub open spec fn refusal(
    schema: Map<Seq<char>, SearchAttributeType>,
    name: Seq<char>,
    value: SearchAttributeValueView,
) -> Option<SearchAttributeErrorView> {
    if !schema.contains_key(name) {
        Some(SearchAttributeErrorView::Unregistered { name })
    } else if schema[name] != value.kind() {
        Some(
            SearchAttributeErrorView::TypeMismatch {
                name,
                expected: schema[name],
                actual: value.kind(),
            },
        )
    } else {
        None
    }
}

/// The schema objects to none of the attributes.
pub open spec fn accepted(
    attributes: Map<Seq<char>, SearchAttributeValueView>,
    schema: Map<Seq<char>, SearchAttributeType>,
) -> bool {
    forall|name: Seq<char>| #[trigger]
        attributes.contains_key(name) ==> refusal(schema, name, attributes[name]) is None
}

/// Registered attribute names with their types; a later registration replaces an earlier one.
#[derive(Debug, PartialEq, Eq)]
pub struct SearchAttributeSchema {
    entries: Vec<(String, SearchAttributeType)>,
}

/// Types by attribute name; the last registration of a name counts.
pub open spec fn schema_map(entries: Seq<(String, SearchAttributeType)>) -> Map<
    Seq<char>,
    SearchAttributeType,
>
    decreases entries.len(),
{
    if entries.len() == 0 {
        Map::empty()
    } else {
        schema_map(entries.drop_last()).insert(entries.last().0@, entries.last().1)
    }
}

impl View for SearchAttributeSchema {
    type V = Map<Seq<char>, SearchAttributeType>;

    closed spec fn view(&self) -> Map<Seq<char>, SearchAttributeType> {
        schema_map(self.entries@)
    }
}

impl SearchAttributeSchema {
    /// A schema without attributes.
    pub fn new() -> (schema: Self)
        ensures
            schema@ == Map::<Seq<char>, SearchAttributeType>::empty(),
    {
        SearchAttributeSchema { entries: Vec::new() }
    }

    /// Registers `name` with its type.
    pub fn register(&mut self, name: &str, kind: SearchAttributeType)
        ensures
            final(self)@ == old(self)@.insert(name@, kind),
    {
        let ghost before = self.entries@;
        self.entries.push((name.to_owned(), kind));
        assert(self.entries@.drop_last() =~= before);
    }

    /// Checks that `name` is registered with the type of `value`.
    pub fn validate(&self, name: &str, value: &SearchAttributeValue) -> (checked: Result<
        (),
        SearchAttributeError,
    >)
        ensures
            match refusal(self@, name@, value@) {
                None => checked is Ok,
                Some(error) => checked matches Err(e) && e@ == error,
            },
    {
        let mut i: usize = self.entries.len();
        assert(self.entries@.take(i as int) =~= self.entries@);
        while i > 0
            invariant
                i <= self.entries.len(),
                self@.contains_key(name@) == schema_map(
                    self.entries@.take(i as int),
                ).contains_key(name@),
                self@.contains_key(name@) ==> self@[name@] == schema_map(
                    self.entries@.take(i as int),
                )[name@],
            decreases i,
        {
            let ghost prefix = self.entries@.take(i as int);
            assert(prefix.drop_last() =~= self.entries@.take(i - 1));
            assert(prefix.last() == self.entries@[i - 1]);
            i -= 1;
            if same_text(self.entries[i].0.as_str(), name) {
                let actual = value.attribute_type();
                if self.entries[i].1 == actual {
                    return Ok(());
                }
                return Err(
                    SearchAttributeError::TypeMismatch {
                        name: name.to_owned(),
                        expected: self.entries[i].1,
                        actual,
                    },
                );
            }
        }
        assert(self.entries@.take(0) =~= Seq::empty());
        Err(SearchAttributeError::Unregistered { name: name.to_owned() })
    }
}

/// A schema lets a value through exactly where the name is registered with the type of the value: text
/// for text, and so on. What it refuses it refuses by the name, as unregistered or with both types.
pub proof fn schemas_let_registered_types_through(
    schema: Map<Seq<char>, SearchAttributeType>,
    name: Seq<char>,
    value: SearchAttributeValueView,
)
    ensures
        refusal(schema, name, value) is None <==> schema.contains_key(name) && (match schema[name] {
            SearchAttributeType::String => value is String,
            SearchAttributeType::Int => value is Int,
            SearchAttributeType::Float => value is Float,
            SearchAttributeType::Datetime => value is Datetime,
            SearchAttributeType::KeywordList => value is KeywordList,
        }),
        !schema.contains_key(name) ==> refusal(schema, name, value) == Some(
            SearchAttributeErrorView::Unregistered { name },
        ),
        schema.contains_key(name) && refusal(schema, name, value) is Some ==> (refusal(
            schema,
            name,
            value,
        ) matches Some(SearchAttributeErrorView::TypeMismatch { name: named, expected, actual })
            && named == name && expected == schema[name] && actual != expected),
{
}

/// Integers and instants are compared as numbers: of two exactly one is greater, or they are equal, and
/// equal values are the same. Values of different types are neither equal nor ordered.
pub proof fn values_are_compared_by_type(
    a: SearchAttributeValueView,
    b: SearchAttributeValueView,
)
    ensures
        a matches SearchAttributeValueView::Int(x) ==> b matches SearchAttributeValueView::Int(y)
            ==> (a.greater_than(b) <==> x > y) && (a.equals(b) <==> x == y),
        a matches SearchAttributeValueView::Datetime(x) ==> (
        b matches SearchAttributeValueView::Datetime(y) ==> (a.greater_than(b) <==> (x.seconds()
            > y.seconds() || (x.seconds() == y.seconds() && x.subsec_nanos() > y.subsec_nanos())))
            && (a.equals(b) <==> x == y)),
        a matches SearchAttributeValueView::String(x) ==> !a.greater_than(b) && (a.equals(b)
            <==> b == SearchAttributeValueView::String(x)),
        a matches SearchAttributeValueView::KeywordList(x) ==> !a.greater_than(b) && (a.equals(b)
            <==> b == SearchAttributeValueView::KeywordList(x)),
        a.greater_than(b) ==> !b.greater_than(a) && !a.equals(b),
        a.equals(b) ==> b.equals(a) && !b.greater_than(a),
        (a is Int && !(b is Int)) || (a is Float && !(b is Float)) || (a is Datetime && !(
        b is Datetime)) ==> !a.greater_than(b) && !b.greater_than(a) && !a.equals(b),
{
}

/// A double that is positive, by its sign bit, and not smaller in the rest of its bits than another is
/// not smaller as a number; negative doubles go the other way, and a value that is no number is neither
/// equal to nor greater than any.
pub proof fn doubles_are_compared_as_numbers(a: FloatBits, b: FloatBits)
    ensures
        a.bits <= 0x7ff0_0000_0000_0000 && b.bits <= 0x7ff0_0000_0000_0000 ==> (
        SearchAttributeValueView::Float(a).greater_than(SearchAttributeValueView::Float(b))
            <==> a.bits > b.bits),
        a.bits <= 0x7ff0_0000_0000_0000 && 0x8000_0000_0000_0000 < b.bits <= 0xfff0_0000_0000_0000
            ==> SearchAttributeValueView::Float(a).greater_than(SearchAttributeValueView::Float(b)),
        0x8000_0000_0000_0000 <= a.bits <= 0xfff0_0000_0000_0000 && 0x8000_0000_0000_0000 <= b.bits
            <= 0xfff0_0000_0000_0000 ==> (SearchAttributeValueView::Float(a).greater_than(
            SearchAttributeValueView::Float(b),
        ) <==> a.bits < b.bits),
        0x7ff0_0000_0000_0000 < a.bits < 0x8000_0000_0000_0000 || a.bits > 0xfff0_0000_0000_0000
            ==> !SearchAttributeValueView::Float(a).equals(SearchAttributeValueView::Float(b))
            && !SearchAttributeValueView::Float(a).greater_than(SearchAttributeValueView::Float(b))
            && !SearchAttributeValueView::Float(b).greater_than(SearchAttributeValueView::Float(a)),
{
}

/// Attributes are accepted exactly when every one of them is registered with the type of its value.
pub proof fn accepted_attributes_are_registered(
    attributes: Map<Seq<char>, SearchAttributeValueView>,
    schema: Map<Seq<char>, SearchAttributeType>,
)
    ensures
        accepted(attributes, schema) <==> forall|name: Seq<char>| #[trigger]
            attributes.contains_key(name) ==> schema.contains_key(name) && (match schema[name] {
                SearchAttributeType::String => attributes[name] is String,
                SearchAttributeType::Int => attributes[name] is Int,
                SearchAttributeType::Float => attributes[name] is Float,
                SearchAttributeType::Datetime => attributes[name] is Datetime,
                SearchAttributeType::KeywordList => attributes[name] is KeywordList,
            }),
{
}

} // verus!
