//! The catalogue of constraint rules, their parameters and their default
//! messages.

use vstd::prelude::*;
use crate::pattern::pattern_compiles;
use crate::text::{
    decimal, natural_digits, push_integer, push_natural, push_quoted, push_str, quoted,
    string_from_chars,
};

verus! {

/// A literal that an enumeration rule lists.
#[derive(Debug)]
pub enum Literal {
    Integer(i128),
    Text(String),
}

/// The mathematical value of a [`Literal`].
pub enum LiteralView {
    Integer(int),
    Text(Seq<char>),
}

impl View for Literal {
    type V = LiteralView;

    open spec fn view(&self) -> LiteralView {
        match self {
            Literal::Integer(n) => LiteralView::Integer(*n as int),
            Literal::Text(s) => LiteralView::Text(s@),
        }
    }
}

impl Literal {
    /// A copy of this literal.
    pub fn duplicate(&self) -> (copy: Literal)
        ensures
            copy@ == self@,
    {
        match self {
            Literal::Integer(n) => Literal::Integer(*n),
            Literal::Text(s) => Literal::Text(s.clone()),
        }
    }

    /// Whether two literals have the same value.
    pub fn equals(&self, other: &Literal) -> (same: bool)
        ensures
            same == (self@ == other@),
    {
        match (self, other) {
            (Literal::Integer(a), Literal::Integer(b)) => *a == *b,
            (Literal::Text(a), Literal::Text(b)) => {
                *a == *b
            },
            _ => false,
        }
    }
}

/// What a caller-supplied predicate decided about the value it was given.
#[derive(Debug)]
pub enum Verdict {
    /// The predicate accepted the value.
    Pass,
    /// The predicate rejected the value, with this message.
    Fail(String),
}

/// The mathematical value of a [`Verdict`].
pub enum VerdictView {
    Pass,
    Fail(Seq<char>),
}

impl View for Verdict {
    type V = VerdictView;

    open spec fn view(&self) -> VerdictView {
        match self {
            Verdict::Pass => VerdictView::Pass,
            Verdict::Fail(message) => VerdictView::Fail(message@),
        }
    }
}

impl Verdict {
    /// A copy of this verdict.
    pub fn duplicate(&self) -> (copy: Verdict)
        ensures
            copy@ == self@,
    {
        match self {
            Verdict::Pass => Verdict::Pass,
            Verdict::Fail(message) => Verdict::Fail(message.clone()),
        }
    }

    /// Whether two verdicts are the same.
    pub fn equals(&self, other: &Verdict) -> (same: bool)
        ensures
            same == (self@ == other@),
    {
        match (self, other) {
            (Verdict::Pass, Verdict::Pass) => true,
            (Verdict::Fail(a), Verdict::Fail(b)) => {
                *a == *b
            },
            _ => false,
        }
    }
}

/// One constraint with its parameter.
#[derive(Debug)]
pub enum Rule {
    /// The number is at least the bound.
    Minimum(i128),
    /// The number is at most the bound.
    Maximum(i128),
    /// The number is greater than the bound.
    ExclusiveMinimum(i128),
    /// The number is less than the bound.
    ExclusiveMaximum(i128),
    /// The number is a multiple of the divisor, which is not zero.
    MultipleOf(i128),
    /// The text or byte string has at least this length.
    MinLength(usize),
    /// The text or byte string has at most this length.
    MaxLength(usize),
    /// The text matches this regular expression somewhere.
    Pattern(String),
    /// The sequence has at least this many items.
    MinItems(usize),
    /// The sequence has at most this many items.
    MaxItems(usize),
    /// No two items of the sequence are equal.
    UniqueItems,
    /// The mapping has at least this many entries.
    MinProperties(usize),
    /// The mapping has at most this many entries.
    MaxProperties(usize),
    /// The value is one of these literals.
    Enumerate(Vec<Literal>),
    /// A predicate of the caller's, which has already given its verdict.
    Custom(Verdict),
}

/// The tag of a [`Rule`], without its parameter.
#[derive(Clone, Copy, Debug, PartialEq, Eq, Structural)]
pub enum RuleKind {
    Minimum,
    Maximum,
    ExclusiveMinimum,
    ExclusiveMaximum,
    MultipleOf,
    MinLength,
    MaxLength,
    Pattern,
    MinItems,
    MaxItems,
    UniqueItems,
    MinProperties,
    MaxProperties,
    Enumerate,
    Custom,
}

/// The mathematical value of a [`Rule`].
pub enum RuleView {
    Minimum(int),
    Maximum(int),
    ExclusiveMinimum(int),
    ExclusiveMaximum(int),
    MultipleOf(int),
    MinLength(nat),
    MaxLength(nat),
    Pattern(Seq<char>),
    MinItems(nat),
    MaxItems(nat),
    UniqueItems,
    MinProperties(nat),
    MaxProperties(nat),
    Enumerate(Seq<LiteralView>),
    Custom(VerdictView),
}

/// The values of a list of literals.
pub open spec fn literal_views(items: Seq<Literal>) -> Seq<LiteralView> {
    Seq::new(items.len(), |i: int| items[i]@)
}

impl View for Rule {
    type V = RuleView;

    open spec fn view(&self) -> RuleView {
        match self {
            Rule::Minimum(bound) => RuleView::Minimum(*bound as int),
            Rule::Maximum(bound) => RuleView::Maximum(*bound as int),
            Rule::ExclusiveMinimum(bound) => RuleView::ExclusiveMinimum(*bound as int),
            Rule::ExclusiveMaximum(bound) => RuleView::ExclusiveMaximum(*bound as int),
            Rule::MultipleOf(divisor) => RuleView::MultipleOf(*divisor as int),
            Rule::MinLength(bound) => RuleView::MinLength(*bound as nat),
            Rule::MaxLength(bound) => RuleView::MaxLength(*bound as nat),
            Rule::Pattern(pattern) => RuleView::Pattern(pattern@),
            Rule::MinItems(bound) => RuleView::MinItems(*bound as nat),
            Rule::MaxItems(bound) => RuleView::MaxItems(*bound as nat),
            Rule::UniqueItems => RuleView::UniqueItems,
            Rule::MinProperties(bound) => RuleView::MinProperties(*bound as nat),
            Rule::MaxProperties(bound) => RuleView::MaxProperties(*bound as nat),
            Rule::Enumerate(literals) => RuleView::Enumerate(literal_views(literals@)),
            Rule::Custom(verdict) => RuleView::Custom(verdict@),
        }
    }
}

impl RuleView {
    /// The tag of this rule.
    pub open spec fn kind(self) -> RuleKind {
        match self {
            RuleView::Minimum(_) => RuleKind::Minimum,
            RuleView::Maximum(_) => RuleKind::Maximum,
            RuleView::ExclusiveMinimum(_) => RuleKind::ExclusiveMinimum,
            RuleView::ExclusiveMaximum(_) => RuleKind::ExclusiveMaximum,
            RuleView::MultipleOf(_) => RuleKind::MultipleOf,
            RuleView::MinLength(_) => RuleKind::MinLength,
            RuleView::MaxLength(_) => RuleKind::MaxLength,
            RuleView::Pattern(_) => RuleKind::Pattern,
            RuleView::MinItems(_) => RuleKind::MinItems,
            RuleView::MaxItems(_) => RuleKind::MaxItems,
            RuleView::UniqueItems => RuleKind::UniqueItems,
            RuleView::MinProperties(_) => RuleKind::MinProperties,
            RuleView::MaxProperties(_) => RuleKind::MaxProperties,
            RuleView::Enumerate(_) => RuleKind::Enumerate,
            RuleView::Custom(_) => RuleKind::Custom,
        }
    }

    /// Whether the rule's parameter is one that can be evaluated: the divisor
    /// of a multiple-of rule is not zero, and a pattern is a regular
    /// expression that compiles.
    pub open spec fn well_formed(self) -> bool {
        match self {
            RuleView::MultipleOf(divisor) => divisor != 0,
            RuleView::Pattern(pattern) => pattern_compiles(pattern),
            _ => true,
        }
    }
}

/// How a literal is written in a message: a number as its decimal numeral, a
/// text between quotation marks.
pub open spec fn literal_text(literal: LiteralView) -> Seq<char> {
    match literal {
        LiteralView::Integer(n) => decimal(n),
        LiteralView::Text(s) => quoted(s),
    }
}

/// The literals of a list as they are written in a message, separated by a
/// comma and a space.
pub open spec fn literal_list(items: Seq<LiteralView>) -> Seq<char>
    decreases items.len(),
{
    if items.len() == 0 {
        Seq::empty()
    } else if items.len() == 1 {
        literal_text(items[0])
    } else {
        literal_list(items.drop_last()) + ", "@ + literal_text(items.last())
    }
}

/// The message that a failure of `rule` carries unless the caller supplies another.
pub open spec fn default_message(rule: RuleView) -> Seq<char> {
    match rule {
        RuleView::Minimum(bound) => "The number must be `>= "@ + decimal(bound) + "`."@,
        RuleView::Maximum(bound) => "The number must be `<= "@ + decimal(bound) + "`."@,
        RuleView::ExclusiveMinimum(bound) => "The number must be `> "@ + decimal(bound) + "`."@,
        RuleView::ExclusiveMaximum(bound) => "The number must be `< "@ + decimal(bound) + "`."@,
        RuleView::MultipleOf(divisor) => "The value must be multiple of `"@ + decimal(divisor)
            + "`."@,
        RuleView::MinLength(bound) => "The length of the value must be `>= "@ + natural_digits(
            bound,
        ) + "`."@,
        RuleView::MaxLength(bound) => "The length of the value must be `<= "@ + natural_digits(
            bound,
        ) + "`."@,
        RuleView::Pattern(pattern) => "The value must match the pattern of "@ + quoted(pattern)
            + "."@,
        RuleView::MinItems(bound) => "The length of the items must be `>= "@ + natural_digits(
            bound,
        ) + "`."@,
        RuleView::MaxItems(bound) => "The length of the items must be `<= "@ + natural_digits(
            bound,
        ) + "`."@,
        RuleView::UniqueItems => "The items must be unique."@,
        RuleView::MinProperties(bound) => "The size of the properties must be `>= "@
            + natural_digits(bound) + "`."@,
        RuleView::MaxProperties(bound) => "The size of the properties must be `<= "@
            + natural_digits(bound) + "`."@,
        RuleView::Enumerate(literals) => "The value must be in ["@ + literal_list(literals)
            + "]."@,
        RuleView::Custom(verdict) => match verdict {
            VerdictView::Pass => Seq::empty(),
            VerdictView::Fail(message) => message,
        },
    }
}

fn push_literal_list(out: &mut Vec<char>, literals: &Vec<Literal>)
    ensures
        final(out)@ == old(out)@ + literal_list(literal_views(literals@)),
{
    let ghost before = out@;
    let ghost all = literal_views(literals@);
    let mut i: usize = 0;
    while i < literals.len()
        invariant
            i <= literals.len(),
            all == literal_views(literals@),
            out@ == before + literal_list(all.take(i as int)),
        decreases literals.len() - i,
    {
        let ghost so_far = out@;
        if i > 0 {
            push_str(out, ", ");
        }
        match &literals[i] {
            Literal::Integer(n) => push_integer(out, *n),
            Literal::Text(s) => push_quoted(out, s.as_str()),
        }
        proof {
            let next = all.take(i + 1);
            assert(next.drop_last() =~= all.take(i as int));
            assert(next.last() == literals@[i as int]@);
            assert(out@ =~= before + literal_list(next));
        }
        i += 1;
    }
    assert(all.take(literals.len() as int) =~= all);
}

fn bounded_message(head: &str, bound: i128) -> (out: Vec<char>)
    ensures
        out@ == head@ + decimal(bound as int) + "`."@,
{
    let mut out: Vec<char> = Vec::new();
    push_str(&mut out, head);
    push_integer(&mut out, bound);
    push_str(&mut out, "`.");
    assert(out@ =~= head@ + decimal(bound as int) + "`."@);
    out
}

fn sized_message(head: &str, bound: usize) -> (out: Vec<char>)
    ensures
        out@ == head@ + natural_digits(bound as nat) + "`."@,
{
    let mut out: Vec<char> = Vec::new();
    push_str(&mut out, head);
    push_natural(&mut out, bound as u128);
    push_str(&mut out, "`.");
    assert(out@ =~= head@ + natural_digits(bound as nat) + "`."@);
    out
}

impl Rule {
    /// The tag of this rule.
    pub fn kind(&self) -> (kind: RuleKind)
        ensures
            kind == self@.kind(),
    {
        match self {
            Rule::Minimum(_) => RuleKind::Minimum,
            Rule::Maximum(_) => RuleKind::Maximum,
            Rule::ExclusiveMinimum(_) => RuleKind::ExclusiveMinimum,
            Rule::ExclusiveMaximum(_) => RuleKind::ExclusiveMaximum,
            Rule::MultipleOf(_) => RuleKind::MultipleOf,
            Rule::MinLength(_) => RuleKind::MinLength,
            Rule::MaxLength(_) => RuleKind::MaxLength,
            Rule::Pattern(_) => RuleKind::Pattern,
            Rule::MinItems(_) => RuleKind::MinItems,
            Rule::MaxItems(_) => RuleKind::MaxItems,
            Rule::UniqueItems => RuleKind::UniqueItems,
            Rule::MinProperties(_) => RuleKind::MinProperties,
            Rule::MaxProperties(_) => RuleKind::MaxProperties,
            Rule::Enumerate(_) => RuleKind::Enumerate,
            Rule::Custom(_) => RuleKind::Custom,
        }
    }

    /// A copy of this rule.
    pub fn duplicate(&self) -> (copy: Rule)
        ensures
            copy@ == self@,
    {
        match self {
            Rule::Minimum(bound) => Rule::Minimum(*bound),
            Rule::Maximum(bound) => Rule::Maximum(*bound),
            Rule::ExclusiveMinimum(bound) => Rule::ExclusiveMinimum(*bound),
            Rule::ExclusiveMaximum(bound) => Rule::ExclusiveMaximum(*bound),
            Rule::MultipleOf(divisor) => Rule::MultipleOf(*divisor),
            Rule::MinLength(bound) => Rule::MinLength(*bound),
            Rule::MaxLength(bound) => Rule::MaxLength(*bound),
            Rule::Pattern(pattern) => Rule::Pattern(pattern.clone()),
            Rule::MinItems(bound) => Rule::MinItems(*bound),
            Rule::MaxItems(bound) => Rule::MaxItems(*bound),
            Rule::UniqueItems => Rule::UniqueItems,
            Rule::MinProperties(bound) => Rule::MinProperties(*bound),
            Rule::MaxProperties(bound) => Rule::MaxProperties(*bound),
            Rule::Enumerate(literals) => {
                let mut copy: Vec<Literal> = Vec::new();
                let mut i: usize = 0;
                while i < literals.len()
                    invariant
                        i <= literals.len(),
                        copy@.len() == i,
                        forall|k: int| 0 <= k < i ==> (#[trigger] copy@[k])@ == literals@[k]@,
                    decreases literals.len() - i,
                {
                    copy.push(literals[i].duplicate());
                    i += 1;
                }
                assert(literal_views(copy@) =~= literal_views(literals@));
                Rule::Enumerate(copy)
            },
            Rule::Custom(verdict) => Rule::Custom(verdict.duplicate()),
        }
    }

    /// The message that a failure of this rule carries unless the caller
    /// supplies another.
    pub fn to_default_message(&self) -> (message: String)
        ensures
            message@ == default_message(self@),
    {
        let out = match self {
            Rule::Minimum(bound) => bounded_message("The number must be `>= ", *bound),
            Rule::Maximum(bound) => bounded_message("The number must be `<= ", *bound),
            Rule::ExclusiveMinimum(bound) => bounded_message("The number must be `> ", *bound),
            Rule::ExclusiveMaximum(bound) => bounded_message("The number must be `< ", *bound),
            Rule::MultipleOf(divisor) => bounded_message(
                "The value must be multiple of `",
                *divisor,
            ),
            Rule::MinLength(bound) => sized_message(
                "The length of the value must be `>= ",
                *bound,
            ),
            Rule::MaxLength(bound) => sized_message(
                "The length of the value must be `<= ",
                *bound,
            ),
            Rule::Pattern(pattern) => {
                let mut out: Vec<char> = Vec::new();
                push_str(&mut out, "The value must match the pattern of ");
                push_quoted(&mut out, pattern.as_str());
                push_str(&mut out, ".");
                assert(out@ =~= default_message(self@));
                out
            },
            Rule::MinItems(bound) => sized_message(
                "The length of the items must be `>= ",
                *bound,
            ),
            Rule::MaxItems(bound) => sized_message(
                "The length of the items must be `<= ",
                *bound,
            ),
            Rule::UniqueItems => {
                let mut out: Vec<char> = Vec::new();
                push_str(&mut out, "The items must be unique.");
                assert(out@ =~= default_message(self@));
                out
            },
            Rule::MinProperties(bound) => sized_message(
                "The size of the properties must be `>= ",
                *bound,
            ),
            Rule::MaxProperties(bound) => sized_message(
                "The size of the properties must be `<= ",
                *bound,
            ),
            Rule::Enumerate(literals) => {
                let mut out: Vec<char> = Vec::new();
                push_str(&mut out, "The value must be in [");
                push_literal_list(&mut out, literals);
                push_str(&mut out, "].");
                assert(out@ =~= default_message(self@));
                out
            },
            Rule::Custom(verdict) => match verdict {
                Verdict::Pass => Vec::new(),
                Verdict::Fail(message) => {
                    let mut out: Vec<char> = Vec::new();
                    push_str(&mut out, message.as_str());
                    assert(out@ =~= message@);
                    out
                },
            },
        };
        string_from_chars(out)
    }
}

} // verus!
