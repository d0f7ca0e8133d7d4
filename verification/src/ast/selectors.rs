//! CSS selectors: simple selectors, compound parts joined by combinators,
//! their printed form and their specificity.

use super::Position;
use crate::text::{chars_of, push_char, push_str, str_eq, string_from_range};
use vstd::prelude::*;

verus! {

/// A complete selector (for example `.class > p:hover`).
#[derive(Debug, Clone, PartialEq)]
pub struct Selector {
    /// The compound parts, in order
    pub parts: Vec<SelectorPart>,
    /// Source position
    pub position: Position,
}

/// A compound part of a selector, followed by an optional combinator.
#[derive(Debug, Clone, PartialEq)]
pub struct SelectorPart {
    /// Simple selectors of this part
    pub simple_selectors: Vec<SimpleSelector>,
    /// Combinator to the next part
    pub combinator: Option<Combinator>,
    /// Source position
    pub position: Position,
}

/// A simple selector.
#[derive(Debug, Clone, PartialEq)]
pub enum SimpleSelector {
    /// `*`
    Universal(Position),
    /// Type selector (`div`)
    Type {
        /// Element name
        name: String,
        /// Source position
        position: Position,
    },
    /// Class selector (`.name`)
    Class {
        /// Class name
        name: String,
        /// Source position
        position: Position,
    },
    /// ID selector (`#name`)
    Id {
        /// ID name
        name: String,
        /// Source position
        position: Position,
    },
    /// Attribute selector (`[attr]`, `[attr=value]`, ...)
    Attribute {
        /// Attribute name
        name: String,
        /// Matching operator
        operator: Option<AttributeOperator>,
        /// Value to match
        value: Option<String>,
        /// Case-insensitive flag (` i`)
        case_insensitive: bool,
        /// Source position
        position: Position,
    },
    /// Pseudo-class (`:hover`, `:nth-child(2n+1)`)
    PseudoClass {
        /// Pseudo-class name
        name: String,
        /// Argument in parentheses
        argument: Option<String>,
        /// Source position
        position: Position,
    },
    /// Pseudo-element (`::before`)
    PseudoElement {
        /// Pseudo-element name
        name: String,
        /// Source position
        position: Position,
    },
    /// Parent reference (`&`)
    Parent(Position),
    /// Interpolated selector (`@{variable}`)
    Interpolation {
        /// Variable name
        variable: String,
        /// Source position
        position: Position,
    },
}

/// Attribute matching operators.
#[derive(Debug, Clone, Copy, PartialEq, Eq, Structural)]
pub enum AttributeOperator {
    /// `=`
    Equal,
    /// `~=`
    Includes,
    /// `|=`
    DashMatch,
    /// `^=`
    Prefix,
    /// `$=`
    Suffix,
    /// `*=`
    Substring,
}

/// Selector combinators.
#[derive(Debug, Clone, Copy, PartialEq, Eq, Structural)]
pub enum Combinator {
    /// Descendant (space)
    Descendant,
    /// Child (`>`)
    Child,
    /// Adjacent sibling (`+`)
    AdjacentSibling,
    /// General sibling (`~`)
    GeneralSibling,
}

impl AttributeOperator {
    /// The operator's CSS text.
    pub open spec fn spec_css(&self) -> Seq<char> {
        match self {
            AttributeOperator::Equal => seq!['='],
            AttributeOperator::Includes => seq!['~', '='],
            AttributeOperator::DashMatch => seq!['|', '='],
            AttributeOperator::Prefix => seq!['^', '='],
            AttributeOperator::Suffix => seq!['$', '='],
            AttributeOperator::Substring => seq!['*', '='],
        }
    }

    /// The operator's CSS text.
    pub fn to_css(&self) -> (res: &'static str)
        ensures
            res@ == self.spec_css(),
    {
        match self {
            AttributeOperator::Equal => { proof { reveal_strlit("="); } "=" },
            AttributeOperator::Includes => { proof { reveal_strlit("~="); } "~=" },
            AttributeOperator::DashMatch => { proof { reveal_strlit("|="); } "|=" },
            AttributeOperator::Prefix => { proof { reveal_strlit("^="); } "^=" },
            AttributeOperator::Suffix => { proof { reveal_strlit("$="); } "$=" },
            AttributeOperator::Substring => { proof { reveal_strlit("*="); } "*=" },
        }
    }
}

impl Combinator {
    /// The combinator's CSS text (a single space for descendants).
    pub open spec fn spec_css(&self) -> Seq<char> {
        match self {
            Combinator::Descendant => seq![' '],
            Combinator::Child => seq!['>'],
            Combinator::AdjacentSibling => seq!['+'],
            Combinator::GeneralSibling => seq!['~'],
        }
    }

    /// The combinator's CSS text.
    pub fn to_css(&self) -> (res: &'static str)
        ensures
            res@ == self.spec_css(),
    {
        match self {
            Combinator::Descendant => { proof { reveal_strlit(" "); } " " },
            Combinator::Child => { proof { reveal_strlit(">"); } ">" },
            Combinator::AdjacentSibling => { proof { reveal_strlit("+"); } "+" },
            Combinator::GeneralSibling => { proof { reveal_strlit("~"); } "~" },
        }
    }

    /// Binding strength: descendant 1, child 2, siblings 3.
    pub open spec fn spec_precedence(&self) -> u8 {
        match self {
            Combinator::Descendant => 1,
            Combinator::Child => 2,
            Combinator::AdjacentSibling => 3,
            Combinator::GeneralSibling => 3,
        }
    }

    /// The precedence of this combinator (higher binds tighter).
    pub fn precedence(&self) -> (res: u8)
        ensures
            res == self.spec_precedence(),
    {
        match self {
            Combinator::Descendant => 1,
            Combinator::Child => 2,
            Combinator::AdjacentSibling => 3,
            Combinator::GeneralSibling => 3,
        }
    }
}

/// The name of the pseudo-classes that depend on document structure.
pub open spec fn is_structural_name(n: Seq<char>) -> bool {
    ||| n == "first-child"@
    ||| n == "last-child"@
    ||| n == "nth-child"@
    ||| n == "nth-last-child"@
    ||| n == "first-of-type"@
    ||| n == "last-of-type"@
    ||| n == "nth-of-type"@
    ||| n == "nth-last-of-type"@
    ||| n == "only-child"@
    ||| n == "only-of-type"@
    ||| n == "empty"@
}

impl SimpleSelector {
    /// The position stored in the selector.
    pub open spec fn spec_position(&self) -> Position {
        match self {
            SimpleSelector::Universal(pos) => *pos,
            SimpleSelector::Type { position, .. } => *position,
            SimpleSelector::Class { position, .. } => *position,
            SimpleSelector::Id { position, .. } => *position,
            SimpleSelector::Attribute { position, .. } => *position,
            SimpleSelector::PseudoClass { position, .. } => *position,
            SimpleSelector::PseudoElement { position, .. } => *position,
            SimpleSelector::Parent(pos) => *pos,
            SimpleSelector::Interpolation { position, .. } => *position,
        }
    }

    /// The position of this simple selector.
    pub fn position(&self) -> (res: &Position)
        ensures
            *res == self.spec_position(),
    {
        match self {
            SimpleSelector::Universal(pos) => pos,
            SimpleSelector::Type { position, .. } => position,
            SimpleSelector::Class { position, .. } => position,
            SimpleSelector::Id { position, .. } => position,
            SimpleSelector::Attribute { position, .. } => position,
            SimpleSelector::PseudoClass { position, .. } => position,
            SimpleSelector::PseudoElement { position, .. } => position,
            SimpleSelector::Parent(pos) => pos,
            SimpleSelector::Interpolation { position, .. } => position,
        }
    }

    /// The printed CSS of a simple selector.
    pub open spec fn spec_css(&self) -> Seq<char> {
        match self {
            SimpleSelector::Universal(_) => seq!['*'],
            SimpleSelector::Type { name, .. } => name@,
            SimpleSelector::Class { name, .. } => seq!['.'] + name@,
            SimpleSelector::Id { name, .. } => seq!['#'] + name@,
            SimpleSelector::Attribute { name, operator, value, case_insensitive, .. } => {
                let inner = match (operator, value) {
                    (Some(op), Some(v)) => op.spec_css() + seq!['"'] + v@ + seq!['"'] + (
                    if *case_insensitive {
                        seq![' ', 'i']
                    } else {
                        seq![]
                    }),
                    _ => seq![],
                };
                seq!['['] + name@ + inner + seq![']']
            },
            SimpleSelector::PseudoClass { name, argument, .. } => match argument {
                Some(a) => seq![':'] + name@ + seq!['('] + a@ + seq![')'],
                None => seq![':'] + name@,
            },
            SimpleSelector::PseudoElement { name, .. } => seq![':', ':'] + name@,
            SimpleSelector::Parent(_) => seq!['&'],
            SimpleSelector::Interpolation { variable, .. } => seq!['@', '{'] + variable@ + seq![
                '}',
            ],
        }
    }

    /// Prints the simple selector as CSS.
    pub fn to_css(&self) -> (res: String)
        ensures
            res@ == self.spec_css(),
    {
        let mut out = String::new();
        match self {
            SimpleSelector::Universal(_) => {
                push_char(&mut out, '*');
            },
            SimpleSelector::Type { name, .. } => {
                push_str(&mut out, name.as_str());
            },
            SimpleSelector::Class { name, .. } => {
                push_char(&mut out, '.');
                push_str(&mut out, name.as_str());
            },
            SimpleSelector::Id { name, .. } => {
                push_char(&mut out, '#');
                push_str(&mut out, name.as_str());
            },
            SimpleSelector::Attribute { name, operator, value, case_insensitive, .. } => {
                push_char(&mut out, '[');
                push_str(&mut out, name.as_str());
                if let Some(op) = operator {
                    if let Some(val) = value {
                        push_str(&mut out, op.to_css());
                        push_char(&mut out, '"');
                        push_str(&mut out, val.as_str());
                        push_char(&mut out, '"');
                        if *case_insensitive {
                            push_char(&mut out, ' ');
                            push_char(&mut out, 'i');
                        }
                    }
                }
                push_char(&mut out, ']');
            },
            SimpleSelector::PseudoClass { name, argument, .. } => {
                push_char(&mut out, ':');
                push_str(&mut out, name.as_str());
                if let Some(arg) = argument {
                    push_char(&mut out, '(');
                    push_str(&mut out, arg.as_str());
                    push_char(&mut out, ')');
                }
            },
            SimpleSelector::PseudoElement { name, .. } => {
                push_char(&mut out, ':');
                push_char(&mut out, ':');
                push_str(&mut out, name.as_str());
            },
            SimpleSelector::Parent(_) => {
                push_char(&mut out, '&');
            },
            SimpleSelector::Interpolation { variable, .. } => {
                push_char(&mut out, '@');
                push_char(&mut out, '{');
                push_str(&mut out, variable.as_str());
                push_char(&mut out, '}');
            },
        }
        assert(out@ =~= self.spec_css());
        out
    }

    /// Whether this is a pseudo-class that depends on document structure.
    pub open spec fn spec_is_structural(&self) -> bool {
        match self {
            SimpleSelector::PseudoClass { name, .. } => is_structural_name(name@),
            _ => false,
        }
    }

    /// Whether this is a structural pseudo-class (`:first-child`, `:nth-of-type`, ...).
    pub fn is_structural(&self) -> (res: bool)
        ensures
            res == self.spec_is_structural(),
    {
        match self {
            SimpleSelector::PseudoClass { name, .. } => {
                let n = name.as_str();
                str_eq(n, "first-child") || str_eq(n, "last-child") || str_eq(n, "nth-child")
                    || str_eq(n, "nth-last-child") || str_eq(n, "first-of-type") || str_eq(
                    n,
                    "last-of-type",
                ) || str_eq(n, "nth-of-type") || str_eq(n, "nth-last-of-type") || str_eq(
                    n,
                    "only-child",
                ) || str_eq(n, "only-of-type") || str_eq(n, "empty")
            },
            _ => false,
        }
    }

    /// Specificity weight: 0 for IDs, 1 for classes, attributes and
    /// pseudo-classes, 2 for types and pseudo-elements, 3 for the rest.
    pub open spec fn spec_weight_class(&self) -> int {
        match self {
            SimpleSelector::Id { .. } => 0,
            SimpleSelector::Class { .. } | SimpleSelector::Attribute { .. }
            | SimpleSelector::PseudoClass { .. } => 1,
            SimpleSelector::Type { .. } | SimpleSelector::PseudoElement { .. } => 2,
            _ => 3,
        }
    }
}

/// Concatenation of the printed forms of the first `k` simple selectors.
pub open spec fn simples_css(s: Seq<SimpleSelector>, k: int) -> Seq<char>
    decreases k,
{
    if k <= 0 {
        seq![]
    } else {
        simples_css(s, k - 1) + s[k - 1].spec_css()
    }
}

/// Number of the first `k` simple selectors whose weight class is `w`.
pub open spec fn count_class(s: Seq<SimpleSelector>, k: int, w: int) -> int
    decreases k,
{
    if k <= 0 {
        0
    } else {
        count_class(s, k - 1, w) + (if s[k - 1].spec_weight_class() == w {
            1int
        } else {
            0int
        })
    }
}

proof fn lemma_count_class_bound(s: Seq<SimpleSelector>, k: int, w: int)
    ensures
        0 <= count_class(s, k, w) <= if k < 0 { 0 } else { k },
    decreases k,
{
    if k > 0 {
        lemma_count_class_bound(s, k - 1, w);
    }
}

impl SelectorPart {
    /// The printed form of the compound part (without combinator).
    pub open spec fn spec_compound_css(&self) -> Seq<char> {
        simples_css(self.simple_selectors@, self.simple_selectors@.len() as int)
    }

    /// The printed form of a part that is followed by another part.
    pub open spec fn spec_css_with_sep(&self) -> Seq<char> {
        match self.combinator {
            Some(c) => self.spec_compound_css() + seq![' '] + c.spec_css() + seq![' '],
            None => self.spec_compound_css() + seq![' '],
        }
    }

    /// Creates a part without combinator.
    pub fn new(simple_selectors: Vec<SimpleSelector>, position: Position) -> (res: Self)
        ensures
            res.simple_selectors == simple_selectors,
            res.combinator.is_none(),
            res.position == position,
    {
        SelectorPart { simple_selectors, combinator: None, position }
    }

    /// Sets the combinator to the next part.
    pub fn with_combinator(self, combinator: Combinator) -> (res: Self)
        ensures
            res == (SelectorPart { combinator: Some(combinator), ..self }),
    {
        let mut s = self;
        s.combinator = Some(combinator);
        s
    }

    fn compound_css(&self) -> (res: String)
        ensures
            res@ == self.spec_compound_css(),
    {
        let mut out = String::new();
        let mut j: usize = 0;
        while j < self.simple_selectors.len()
            invariant
                0 <= j <= self.simple_selectors.len(),
                out@ == simples_css(self.simple_selectors@, j as int),
            decreases self.simple_selectors.len() - j,
        {
            let piece = self.simple_selectors[j].to_css();
            push_str(&mut out, piece.as_str());
            j = j + 1;
        }
        out
    }
}

/// Concatenation of the separated forms of the first `k` parts.
pub open spec fn parts_prefix_css(p: Seq<SelectorPart>, k: int) -> Seq<char>
    decreases k,
{
    if k <= 0 {
        seq![]
    } else {
        parts_prefix_css(p, k - 1) + p[k - 1].spec_css_with_sep()
    }
}

/// Number of simple selectors in the first `k` parts with weight class `w`.
pub open spec fn parts_count_class(p: Seq<SelectorPart>, k: int, w: int) -> int
    decreases k,
{
    if k <= 0 {
        0
    } else {
        parts_count_class(p, k - 1, w) + count_class(
            p[k - 1].simple_selectors@,
            p[k - 1].simple_selectors@.len() as int,
            w,
        )
    }
}

/// Number of simple selectors in the first `k` parts.
pub open spec fn parts_simple_count(p: Seq<SelectorPart>, k: int) -> int
    decreases k,
{
    if k <= 0 {
        0
    } else {
        parts_simple_count(p, k - 1) + p[k - 1].simple_selectors@.len()
    }
}

proof fn lemma_parts_count_bound(p: Seq<SelectorPart>, k: int, w: int)
    ensures
        0 <= parts_count_class(p, k, w) <= parts_simple_count(p, k),
    decreases k,
{
    if k > 0 {
        lemma_parts_count_bound(p, k - 1, w);
        lemma_count_class_bound(
            p[k - 1].simple_selectors@,
            p[k - 1].simple_selectors@.len() as int,
            w,
        );
    }
}

/// What `Selector::simple` builds from `text`: a single part without
/// combinator whose simple selectors are described by this predicate.
pub open spec fn simple_parse_of(text: Seq<char>, pos: Position, s: Seq<SimpleSelector>) -> bool {
    if text.len() > 1 && text[0] == '&' {
        &&& s.len() == 2
        &&& s[0] == SimpleSelector::Parent(pos)
        &&& if text[1] == ':' {
            s[1] matches SimpleSelector::PseudoClass { name, argument, position }
                && name@ == text.skip(2) && argument.is_none() && position == pos
        } else if text[1] == '.' {
            s[1] matches SimpleSelector::Class { name, position } && name@ == text.skip(2)
                && position == pos
        } else {
            s[1] matches SimpleSelector::Type { name, position } && name@ == text.skip(1)
                && position == pos
        }
    } else {
        &&& s.len() == 1
        &&& if text.len() > 0 && text[0] == '.' {
            s[0] matches SimpleSelector::Class { name, position } && name@ == text.skip(1)
                && position == pos
        } else if text.len() > 0 && text[0] == '#' {
            s[0] matches SimpleSelector::Id { name, position } && name@ == text.skip(1)
                && position == pos
        } else if text == seq!['*'] {
            s[0] == SimpleSelector::Universal(pos)
        } else if text == seq!['&'] {
            s[0] == SimpleSelector::Parent(pos)
        } else {
            s[0] matches SimpleSelector::Type { name, position } && name@ == text && position
                == pos
        }
    }
}

impl Selector {
    /// The printed CSS of the selector: every part but the last is followed by
    /// a space, or by ` c ` where `c` is its combinator.
    pub open spec fn spec_css(&self) -> Seq<char> {
        let p = self.parts@;
        if p.len() == 0 {
            seq![]
        } else {
            parts_prefix_css(p, p.len() - 1) + p[p.len() - 1].spec_compound_css()
        }
    }

    /// Number of simple selectors over all parts.
    pub open spec fn spec_simple_count(&self) -> int {
        parts_simple_count(self.parts@, self.parts@.len() as int)
    }

    /// The specificity triple (IDs; classes, attributes and pseudo-classes;
    /// types and pseudo-elements).
    pub open spec fn spec_specificity(&self) -> (int, int, int) {
        let p = self.parts@;
        (
            parts_count_class(p, p.len() as int, 0),
            parts_count_class(p, p.len() as int, 1),
            parts_count_class(p, p.len() as int, 2),
        )
    }

    /// Whether some simple selector is a parent reference.
    pub open spec fn spec_has_parent_reference(&self) -> bool {
        exists|i: int, j: int|
            0 <= i < self.parts@.len() && 0 <= j < self.parts@[i].simple_selectors@.len()
                && #[trigger] self.parts@[i].simple_selectors@[j] is Parent
    }

    /// Creates a selector.
    pub fn new(parts: Vec<SelectorPart>, position: Position) -> (res: Self)
        ensures
            res.parts == parts,
            res.position == position,
    {
        Selector { parts, position }
    }

    /// Builds a one-part selector from text: `.x` is a class, `#x` an ID,
    /// `*` universal, `&` the parent, `&:x`, `&.x` and `&x` a parent followed
    /// by a pseudo-class, class or type, anything else a type selector.
    pub fn simple(selector_text: String, position: Position) -> (res: Self)
        ensures
            res.position == position,
            res.parts@.len() == 1,
            res.parts@[0].combinator.is_none(),
            res.parts@[0].position == position,
            simple_parse_of(selector_text@, position, res.parts@[0].simple_selectors@),
            res.spec_css() == selector_text@,
    {
        let cs = chars_of(selector_text.as_str());
        let n = cs.len();
        let mut simple_selectors: Vec<SimpleSelector> = Vec::new();
        if n > 1 && cs[0] == '&' {
            simple_selectors.push(SimpleSelector::Parent(position));
            if cs[1] == ':' {
                simple_selectors.push(
                    SimpleSelector::PseudoClass {
                        name: string_from_range(cs.as_slice(), 2, n),
                        argument: None,
                        position,
                    },
                );
            } else if cs[1] == '.' {
                simple_selectors.push(
                    SimpleSelector::Class { name: string_from_range(cs.as_slice(), 2, n), position },
                );
            } else {
                simple_selectors.push(
                    SimpleSelector::Type { name: string_from_range(cs.as_slice(), 1, n), position },
                );
            }
        } else if n > 0 && cs[0] == '.' {
            simple_selectors.push(
                SimpleSelector::Class { name: string_from_range(cs.as_slice(), 1, n), position },
            );
        } else if n > 0 && cs[0] == '#' {
            simple_selectors.push(
                SimpleSelector::Id { name: string_from_range(cs.as_slice(), 1, n), position },
            );
        } else if n == 1 && cs[0] == '*' {
            simple_selectors.push(SimpleSelector::Universal(position));
        } else if n == 1 && cs[0] == '&' {
            simple_selectors.push(SimpleSelector::Parent(position));
        } else {
            simple_selectors.push(SimpleSelector::Type { name: selector_text, position });
        }
        let part = SelectorPart { simple_selectors, combinator: None, position };
        let mut parts: Vec<SelectorPart> = Vec::new();
        parts.push(part);
        let res = Selector { parts, position };
        proof {
            let t = selector_text@;
            assert(t.len() == 1 && t[0] == '*' ==> t =~= seq!['*']);
            assert(t.len() == 1 && t[0] == '&' ==> t =~= seq!['&']);
            assert(t =~= seq!['*'] ==> t.len() == 1 && t[0] == '*');
            assert(t =~= seq!['&'] ==> t.len() == 1 && t[0] == '&');
            lemma_simple_css(t, position, res);
        }
        res
    }

    /// Counts the selector's IDs, classes and elements.
    pub fn specificity(&self) -> (res: (u32, u32, u32))
        requires
            self.spec_simple_count() <= u32::MAX,
        ensures
            res.0 == self.spec_specificity().0,
            res.1 == self.spec_specificity().1,
            res.2 == self.spec_specificity().2,
    {
        let mut ids: u32 = 0;
        let mut classes: u32 = 0;
        let mut elements: u32 = 0;
        let ghost p = self.parts@;
        let mut i: usize = 0;
        while i < self.parts.len()
            invariant
                p == self.parts@,
                0 <= i <= p.len(),
                self.spec_simple_count() <= u32::MAX,
                ids == parts_count_class(p, i as int, 0),
                classes == parts_count_class(p, i as int, 1),
                elements == parts_count_class(p, i as int, 2),
            decreases p.len() - i,
        {
            let part = &self.parts[i];
            let ghost s = part.simple_selectors@;
            let mut j: usize = 0;
            proof {
                lemma_parts_prefix_count(p, i as int, p.len() as int);
                lemma_parts_count_bound(p, i as int + 1, 0);
                lemma_parts_count_bound(p, i as int + 1, 1);
                lemma_parts_count_bound(p, i as int + 1, 2);
            }
            while j < part.simple_selectors.len()
                invariant
                    s == part.simple_selectors@,
                    0 <= j <= s.len(),
                    parts_count_class(p, i as int, 0) + count_class(s, s.len() as int, 0)
                        <= u32::MAX,
                    parts_count_class(p, i as int, 1) + count_class(s, s.len() as int, 1)
                        <= u32::MAX,
                    parts_count_class(p, i as int, 2) + count_class(s, s.len() as int, 2)
                        <= u32::MAX,
                    ids == parts_count_class(p, i as int, 0) + count_class(s, j as int, 0),
                    classes == parts_count_class(p, i as int, 1) + count_class(s, j as int, 1),
                    elements == parts_count_class(p, i as int, 2) + count_class(s, j as int, 2),
                decreases s.len() - j,
            {
                proof {
                    lemma_count_class_mono(s, j as int + 1, s.len() as int, 0);
                    lemma_count_class_mono(s, j as int + 1, s.len() as int, 1);
                    lemma_count_class_mono(s, j as int + 1, s.len() as int, 2);
                }
                match &part.simple_selectors[j] {
                    SimpleSelector::Id { .. } => ids = ids + 1,
                    SimpleSelector::Class { .. } | SimpleSelector::Attribute { .. }
                    | SimpleSelector::PseudoClass { .. } => classes = classes + 1,
                    SimpleSelector::Type { .. } | SimpleSelector::PseudoElement { .. } => elements
                        = elements + 1,
                    _ => {},
                }
                j = j + 1;
            }
            i = i + 1;
        }
        (ids, classes, elements)
    }

    /// Whether the selector contains a parent reference (`&`).
    pub fn has_parent_reference(&self) -> (res: bool)
        ensures
            res == self.spec_has_parent_reference(),
    {
        let mut i: usize = 0;
        while i < self.parts.len()
            invariant
                0 <= i <= self.parts@.len(),
                forall|a: int, b: int|
                    0 <= a < i && 0 <= b < self.parts@[a].simple_selectors@.len()
                        ==> !(#[trigger] self.parts@[a].simple_selectors@[b] is Parent),
            decreases self.parts@.len() - i,
        {
            let part = &self.parts[i];
            let mut j: usize = 0;
            while j < part.simple_selectors.len()
                invariant
                    0 <= i < self.parts@.len(),
                    part == self.parts@[i as int],
                    0 <= j <= part.simple_selectors@.len(),
                    forall|b: int|
                        0 <= b < j ==> !(#[trigger] part.simple_selectors@[b] is Parent),
                decreases part.simple_selectors@.len() - j,
            {
                if let SimpleSelector::Parent(_) = &part.simple_selectors[j] {
                    assert(self.parts@[i as int].simple_selectors@[j as int] is Parent);
                    return true;
                }
                j = j + 1;
            }
            i = i + 1;
        }
        false
    }

    /// Prints the selector as CSS.
    pub fn to_css(&self) -> (res: String)
        ensures
            res@ == self.spec_css(),
    {
        let mut out = String::new();
        let n = self.parts.len();
        if n == 0 {
            return out;
        }
        let mut i: usize = 0;
        while i + 1 < n
            invariant
                n == self.parts@.len(),
                n > 0,
                0 <= i <= n - 1,
                out@ == parts_prefix_css(self.parts@, i as int),
            decreases n - i,
        {
            let part = &self.parts[i];
            let piece = part.compound_css();
            push_str(&mut out, piece.as_str());
            match &part.combinator {
                Some(c) => {
                    push_char(&mut out, ' ');
                    push_str(&mut out, c.to_css());
                    push_char(&mut out, ' ');
                },
                None => {
                    push_char(&mut out, ' ');
                },
            }
            assert(out@ =~= parts_prefix_css(self.parts@, i as int + 1));
            i = i + 1;
        }
        let last = self.parts[n - 1].compound_css();
        push_str(&mut out, last.as_str());
        out
    }
}

proof fn lemma_count_class_mono(s: Seq<SimpleSelector>, a: int, b: int, w: int)
    requires
        a <= b,
    ensures
        count_class(s, a, w) <= count_class(s, b, w),
    decreases b - a,
{
    if a < b {
        lemma_count_class_mono(s, a, b - 1, w);
    }
}

proof fn lemma_parts_prefix_count(p: Seq<SelectorPart>, a: int, b: int)
    requires
        0 <= a < b,
    ensures
        forall|w: int|
            parts_count_class(p, a, w) + count_class(
                p[a].simple_selectors@,
                p[a].simple_selectors@.len() as int,
                w,
            ) <= parts_count_class(p, b, w),
        parts_simple_count(p, a + 1) <= parts_simple_count(p, b),
    decreases b - a,
{
    if a + 1 < b {
        lemma_parts_prefix_count(p, a, b - 1);
        assert forall|w: int|
            parts_count_class(p, b - 1, w) <= parts_count_class(p, b, w) by {
            lemma_count_class_bound(
                p[b - 1].simple_selectors@,
                p[b - 1].simple_selectors@.len() as int,
                w,
            );
        }
    }
}

/// The printed form of a selector built by `Selector::simple` is its text.
proof fn lemma_simple_css(t: Seq<char>, pos: Position, sel: Selector)
    requires
        sel.parts@.len() == 1,
        sel.parts@[0].combinator.is_none(),
        simple_parse_of(t, pos, sel.parts@[0].simple_selectors@),
    ensures
        sel.spec_css() == t,
{
    let s = sel.parts@[0].simple_selectors@;
    assert(parts_prefix_css(sel.parts@, 0) =~= seq![]);
    reveal_with_fuel(simples_css, 3);
    if t.len() > 1 && t[0] == '&' {
        assert(t =~= seq!['&'] + t.skip(1));
        if t[1] == ':' || t[1] == '.' {
            assert(t.skip(1) =~= seq![t[1]] + t.skip(2));
        }
        assert(simples_css(s, 2) =~= t);
    } else if t.len() > 0 && (t[0] == '.' || t[0] == '#') {
        assert(t =~= seq![t[0]] + t.skip(1));
        assert(simples_css(s, 1) =~= t);
    } else {
        assert(simples_css(s, 1) =~= t);
    }
}

/// Printing a selector built by `Selector::simple` from some text gives the
/// text back.
pub proof fn lemma_simple_selector_prints_its_text(text: Seq<char>, sel: Selector)
    requires
        sel.parts@.len() == 1,
        sel.parts@[0].combinator.is_none(),
        simple_parse_of(text, sel.position, sel.parts@[0].simple_selectors@),
    ensures
        sel.spec_css() == text,
{
    lemma_simple_css(text, sel.position, sel);
}

proof fn lemma_count_class_prefix(s: Seq<SimpleSelector>, t: Seq<SimpleSelector>, k: int, w: int)
    requires
        0 <= k <= s.len(),
        k <= t.len(),
        forall|m: int| 0 <= m < k ==> s[m] == t[m],
    ensures
        count_class(s, k, w) == count_class(t, k, w),
    decreases k,
{
    if k > 0 {
        lemma_count_class_prefix(s, t, k - 1, w);
    }
}

proof fn lemma_parts_count_update(
    p: Seq<SelectorPart>,
    q: Seq<SelectorPart>,
    k: int,
    x: SimpleSelector,
    n: int,
    w: int,
)
    requires
        0 <= k < p.len(),
        q.len() == p.len(),
        0 <= n <= p.len(),
        forall|j: int|
            0 <= j < p.len() && j != k ==> #[trigger] q[j].simple_selectors@ == p[j].simple_selectors@,
        q[k].simple_selectors@ == p[k].simple_selectors@.push(x),
    ensures
        parts_count_class(q, n, w) == parts_count_class(p, n, w) + (if n > k
            && x.spec_weight_class() == w {
            1int
        } else {
            0int
        }),
    decreases n,
{
    if n > 0 {
        lemma_parts_count_update(p, q, k, x, n - 1, w);
        let m = n - 1;
        if m != k {
            assert(q[m].simple_selectors@ == p[m].simple_selectors@);
        } else {
            let ps = p[k].simple_selectors@;
            let qs = q[k].simple_selectors@;
            lemma_count_class_prefix(ps, qs, ps.len() as int, w);
            assert(qs[ps.len() as int] == x);
        }
    }
}

/// What each kind of simple selector adds to a selector's specificity:
/// adding an ID to one of its compound parts adds one to the first count;
/// a class, attribute or pseudo-class one to the second; a type or a
/// pseudo-element one to the third; `*`, `&` and interpolations nothing.
pub proof fn lemma_specificity_of_added_simple(
    sel: Selector,
    sel2: Selector,
    k: int,
    x: SimpleSelector,
)
    requires
        0 <= k < sel.parts@.len(),
        sel2.parts@.len() == sel.parts@.len(),
        forall|j: int|
            0 <= j < sel.parts@.len() && j != k ==> #[trigger] sel2.parts@[j].simple_selectors@
                == sel.parts@[j].simple_selectors@,
        sel2.parts@[k].simple_selectors@ == sel.parts@[k].simple_selectors@.push(x),
    ensures
        x is Id ==> sel2.spec_specificity() == (
            sel.spec_specificity().0 + 1,
            sel.spec_specificity().1,
            sel.spec_specificity().2,
        ),
        (x is Class || x is Attribute || x is PseudoClass) ==> sel2.spec_specificity() == (
            sel.spec_specificity().0,
            sel.spec_specificity().1 + 1,
            sel.spec_specificity().2,
        ),
        (x is Type || x is PseudoElement) ==> sel2.spec_specificity() == (
            sel.spec_specificity().0,
            sel.spec_specificity().1,
            sel.spec_specificity().2 + 1,
        ),
        (x is Universal || x is Parent || x is Interpolation) ==> sel2.spec_specificity()
            == sel.spec_specificity(),
{
    let p = sel.parts@;
    let q = sel2.parts@;
    let n = p.len() as int;
    lemma_parts_count_update(p, q, k, x, n, 0);
    lemma_parts_count_update(p, q, k, x, n, 1);
    lemma_parts_count_update(p, q, k, x, n, 2);
}

} // verus!
