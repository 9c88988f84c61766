//! Stories as text.
//!
//! A story is written line by line. Blank lines and the blanks around a line
//! do not count. The lines are, in this order:
//!
//! ```text
//! # Story: <name>
//! ## StoryBeat: <name>            one or more beats, each with
//! ### Rule: <name>                one or more rules, each with
//! <condition>                     one or more conditions,
//! - Set <Kind> <fact> to <value>  and then one or more effects
//! ```
//!
//! A rule may also begin with `- Rule: <name>`. A condition is written as
//! `<Kind>(<fact>, <value>)`, with one of the six kinds of condition, or as
//! `<fact> <op> <value>`, with one of `==`, `>`, `<`, `contains` and `equals`.
//! The kinds of an effect are `Int`, `String`, `Bool` and `StringList`.
//!
//! [`story_of`] says which story a text stands for, and [`parse_story`]
//! computes it. A beat and a rule can be read on their own, too: see
//! [`parse_story_beat`] and [`parse_rule`].

use crate::condition::condition_views;
use crate::condition::rule_views;
use crate::condition::Condition;
use crate::condition::ConditionView;
use crate::condition::Rule;
use crate::condition::RuleView;
use crate::effect::effect_views;
use crate::effect::Effect;
use crate::effect::EffectView;
use crate::fact::Fact;
use crate::fact::FactValue;
use crate::fact::FactView;
use crate::story::beat_views;
use crate::story::Story;
use crate::story::StoryBeat;
use crate::story::StoryBeatView;
use crate::story::StoryView;
use crate::string_set::StringHashSet;
use crate::text::after_first_word;
use crate::text::bool_of;
use crate::text::chars_of;
use crate::text::find;
use crate::text::first_word;
use crate::text::int_of;
use crate::text::is_name;
use crate::text::is_name_text;
use crate::text::left_trim;
use crate::text::left_trimmed;
use crate::text::parse_bool;
use crate::text::parse_int;
use crate::text::position_of;
use crate::text::same_text;
use crate::text::skip_chars;
use crate::text::split_word;
use crate::text::starts_with;
use crate::text::trim;
use crate::text::trimmed;
use crate::text::unquote;
use crate::text::unquoted;
use vstd::prelude::*;
use vstd::string::StrSliceExecFns;
use vstd::string::StringExecFns;

verus! {

/// The six kinds of condition.
#[derive(Debug, Clone, Copy, PartialEq, Eq, Structural)]
pub enum ConditionKind {
    IntEquals,
    IntMoreThan,
    IntLessThan,
    StringEquals,
    BoolEquals,
    ListContains,
}

/// How a condition of each kind begins when it is written as a call.
pub open spec fn mark_of(kind: ConditionKind) -> Seq<char> {
    match kind {
        ConditionKind::IntEquals => "IntEquals("@,
        ConditionKind::IntMoreThan => "IntMoreThan("@,
        ConditionKind::IntLessThan => "IntLessThan("@,
        ConditionKind::StringEquals => "StringEquals("@,
        ConditionKind::BoolEquals => "BoolEquals("@,
        ConditionKind::ListContains => "ListContains("@,
    }
}

/// The kind of the call that a line begins with, if it begins with one.
pub open spec fn call_kind(line: Seq<char>) -> Option<ConditionKind> {
    if mark_of(ConditionKind::IntEquals).is_prefix_of(line) {
        Some(ConditionKind::IntEquals)
    } else if mark_of(ConditionKind::IntMoreThan).is_prefix_of(line) {
        Some(ConditionKind::IntMoreThan)
    } else if mark_of(ConditionKind::IntLessThan).is_prefix_of(line) {
        Some(ConditionKind::IntLessThan)
    } else if mark_of(ConditionKind::StringEquals).is_prefix_of(line) {
        Some(ConditionKind::StringEquals)
    } else if mark_of(ConditionKind::BoolEquals).is_prefix_of(line) {
        Some(ConditionKind::BoolEquals)
    } else if mark_of(ConditionKind::ListContains).is_prefix_of(line) {
        Some(ConditionKind::ListContains)
    } else {
        None
    }
}

/// The condition of that kind on that fact, with the value that the text
/// stands for. The kinds on integers want an integer and `BoolEquals` wants
/// `true` or `false`; the kinds on strings take the text, without its quotes
/// if it has any.
pub open spec fn typed_condition(kind: ConditionKind, fact_name: Seq<char>, value: Seq<char>) -> Option<
    ConditionView,
> {
    match kind {
        ConditionKind::IntEquals => match int_of(value) {
            Some(expected_value) => Some(ConditionView::IntEquals { fact_name, expected_value }),
            None => None,
        },
        ConditionKind::IntMoreThan => match int_of(value) {
            Some(expected_value) => Some(ConditionView::IntMoreThan { fact_name, expected_value }),
            None => None,
        },
        ConditionKind::IntLessThan => match int_of(value) {
            Some(expected_value) => Some(ConditionView::IntLessThan { fact_name, expected_value }),
            None => None,
        },
        ConditionKind::StringEquals => Some(
            ConditionView::StringEquals { fact_name, expected_value: unquoted(value) },
        ),
        ConditionKind::BoolEquals => match bool_of(value) {
            Some(expected_value) => Some(ConditionView::BoolEquals { fact_name, expected_value }),
            None => None,
        },
        ConditionKind::ListContains => Some(
            ConditionView::ListContains { fact_name, expected_value: unquoted(value) },
        ),
    }
}

/// The condition that `<fact> == <value>` stands for: on an integer where the
/// value is one, else on a boolean where the value is one, else on a string.
pub open spec fn equality(fact_name: Seq<char>, value: Seq<char>) -> ConditionView {
    match int_of(value) {
        Some(expected_value) => ConditionView::IntEquals { fact_name, expected_value },
        None => match bool_of(value) {
            Some(expected_value) => ConditionView::BoolEquals { fact_name, expected_value },
            None => ConditionView::StringEquals { fact_name, expected_value: unquoted(value) },
        },
    }
}

/// The condition that a line of the form `<Kind>(<fact>, <value>)` stands for.
/// The fact's name ends at the first comma, and the value at the closing
/// bracket, which ends the line.
pub open spec fn call_condition(line: Seq<char>, kind: ConditionKind) -> Option<ConditionView> {
    let mark = mark_of(kind);
    let inner = line.subrange(mark.len() as int, line.len() - 1);
    let comma = position_of(inner, ',', 0);
    let fact_name = trimmed(inner.take(comma));
    let value = trimmed(inner.skip(comma + 1));
    if line.len() > mark.len() && line.last() == ')' && comma < inner.len() && is_name_text(
        fact_name,
    ) {
        typed_condition(kind, fact_name, value)
    } else {
        None
    }
}

/// The condition that a line of the form `<fact> <op> <value>` stands for.
pub open spec fn infix_condition(line: Seq<char>) -> Option<ConditionView> {
    let fact_name = first_word(line);
    let rest = after_first_word(line);
    let op = first_word(rest);
    let value = after_first_word(rest);
    if !is_name_text(fact_name) {
        None
    } else if op == "=="@ {
        Some(equality(fact_name, value))
    } else if op == ">"@ {
        typed_condition(ConditionKind::IntMoreThan, fact_name, value)
    } else if op == "<"@ {
        typed_condition(ConditionKind::IntLessThan, fact_name, value)
    } else if op == "contains"@ {
        typed_condition(ConditionKind::ListContains, fact_name, value)
    } else if op == "equals"@ {
        typed_condition(ConditionKind::StringEquals, fact_name, value)
    } else {
        None
    }
}

/// The condition that a line stands for, if it stands for one. The line has
/// no blanks around it. A line that begins like a call is read as a call and
/// as nothing else.
pub open spec fn condition_of(line: Seq<char>) -> Option<ConditionView> {
    match call_kind(line) {
        Some(kind) => call_condition(line, kind),
        None => infix_condition(line),
    }
}

/// The items of a list from `start` on, where the characters before `at` are
/// known to hold no comma: the pieces between the commas, each without the
/// blanks around it.
pub open spec fn items_from(s: Seq<char>, start: int, at: int) -> Set<Seq<char>>
    decreases s.len() - at,
{
    if 0 <= at < s.len() && s[at] != ',' {
        items_from(s, start, at + 1)
    } else {
        let item = trimmed(s.subrange(start, at));
        if 0 <= at < s.len() {
            items_from(s, at + 1, at + 1).insert(item)
        } else {
            Set::empty().insert(item)
        }
    }
}

/// The set that a list of items, separated by commas, stands for. No text at
/// all stands for the empty set.
pub open spec fn list_items(value: Seq<char>) -> Set<Seq<char>> {
    if value.len() == 0 {
        Set::empty()
    } else {
        items_from(value, 0, 0)
    }
}

/// The value of that kind that the text stands for.
pub open spec fn typed_value(kind: Seq<char>, value: Seq<char>) -> Option<FactValue> {
    if kind == "Int"@ {
        match int_of(value) {
            Some(number) => Some(FactValue::Int(number)),
            None => None,
        }
    } else if kind == "String"@ {
        Some(FactValue::Text(unquoted(value)))
    } else if kind == "Bool"@ {
        match bool_of(value) {
            Some(flag) => Some(FactValue::Bool(flag)),
            None => None,
        }
    } else if kind == "StringList"@ {
        Some(FactValue::List(list_items(value)))
    } else {
        None
    }
}

/// The effect that a line of the form `- Set <Kind> <fact> to <value>` stands
/// for, if it stands for one. The line has no blanks around it.
pub open spec fn effect_of(line: Seq<char>) -> Option<EffectView> {
    let body = left_trimmed(line.skip("- Set "@.len() as int));
    let kind = first_word(body);
    let named = after_first_word(body);
    let name = first_word(named);
    let told = after_first_word(named);
    let value = after_first_word(told);
    if "- Set "@.is_prefix_of(line) && is_name_text(name) && first_word(told) == "to"@ {
        match typed_value(kind, value) {
            Some(value) => Some(EffectView::SetFact(FactView { name, value })),
            None => None,
        }
    } else {
        None
    }
}

/// What a line of a story's text says.
#[derive(Debug, PartialEq, Eq)]
pub enum Line {
    /// Nothing but blanks.
    Blank,
    /// `# Story: <name>`
    Story(String),
    /// `## StoryBeat: <name>`
    Beat(String),
    /// `### Rule: <name>` or `- Rule: <name>`
    Rule(String),
    Condition(Condition),
    Effect(Effect),
    /// None of the above.
    Malformed,
}

/// A line as a mathematical value.
pub enum LineView {
    Blank,
    Story(Seq<char>),
    Beat(Seq<char>),
    Rule(Seq<char>),
    Condition(ConditionView),
    Effect(EffectView),
    Malformed,
}

impl View for Line {
    type V = LineView;

    open spec fn view(&self) -> LineView {
        match *self {
            Line::Blank => LineView::Blank,
            Line::Story(name) => LineView::Story(name@),
            Line::Beat(name) => LineView::Beat(name@),
            Line::Rule(name) => LineView::Rule(name@),
            Line::Condition(condition) => LineView::Condition(condition@),
            Line::Effect(effect) => LineView::Effect(effect@),
            Line::Malformed => LineView::Malformed,
        }
    }
}

/// The name in a heading: what follows the mark, without the blanks around it.
pub open spec fn heading(line: Seq<char>, mark: Seq<char>) -> Seq<char> {
    trimmed(line.skip(mark.len() as int))
}

/// What a line says. The blanks around it do not count. A heading is known by
/// its mark and an effect by `- Set `; any other line has to be a condition.
pub open spec fn line_of(raw: Seq<char>) -> LineView {
    let line = trimmed(raw);
    if line.len() == 0 {
        LineView::Blank
    } else if "# Story: "@.is_prefix_of(line) {
        LineView::Story(heading(line, "# Story: "@))
    } else if "## StoryBeat: "@.is_prefix_of(line) {
        LineView::Beat(heading(line, "## StoryBeat: "@))
    } else if "### Rule: "@.is_prefix_of(line) {
        LineView::Rule(heading(line, "### Rule: "@))
    } else if "- Rule: "@.is_prefix_of(line) {
        LineView::Rule(heading(line, "- Rule: "@))
    } else if "- Set "@.is_prefix_of(line) {
        match effect_of(line) {
            Some(effect) => LineView::Effect(effect),
            None => LineView::Malformed,
        }
    } else {
        match condition_of(line) {
            Some(condition) => LineView::Condition(condition),
            None => LineView::Malformed,
        }
    }
}

/// Why a text is no story.
#[derive(Debug, Clone, Copy, PartialEq, Eq, Structural)]
pub enum ParseError {
    /// The line of this index, counted from 0, is neither a heading nor a
    /// condition nor an effect: its form is wrong, or a number or a boolean
    /// in it is.
    Malformed { line: usize },
    /// The line of this index, counted from 0, is well formed but may not
    /// stand where it does.
    Unexpected { line: usize },
    /// The text ends before the last beat has an effect.
    Incomplete,
}

/// What the last line that counted was.
#[derive(Debug, Clone, Copy, PartialEq, Eq, Structural)]
pub enum Stage {
    Start,
    Story,
    Beat,
    Rule,
    Condition,
    Effect,
}

/// What a text is read as: a whole story, one beat of a story, or one rule of
/// a beat.
#[derive(Debug, Clone, Copy, PartialEq, Eq, Structural)]
pub enum Scope {
    Story,
    Beat,
    Rule,
}

/// A story as far as the lines read so far give it.
pub struct DraftView {
    pub name: Seq<char>,
    pub beats: Seq<StoryBeatView>,
    pub stage: Stage,
}

impl DraftView {
    /// Before the first line. A story begins at its heading. A beat begins as
    /// if a story's heading had been read, and a rule as if a beat's heading
    /// had.
    pub open spec fn start(scope: Scope) -> DraftView {
        match scope {
            Scope::Story => DraftView {
                name: Seq::empty(),
                beats: Seq::empty(),
                stage: Stage::Start,
            },
            Scope::Beat => DraftView {
                name: Seq::empty(),
                beats: Seq::empty(),
                stage: Stage::Story,
            },
            Scope::Rule => DraftView {
                name: Seq::empty(),
                beats: Seq::empty().push(
                    StoryBeatView {
                        name: Seq::empty(),
                        rules: Seq::empty(),
                        effects: Seq::empty(),
                        finished: false,
                    },
                ),
                stage: Stage::Beat,
            },
        }
    }

    /// Whether the draft holds no more than is being read: any number of
    /// beats where a story is read, one beat at most where a beat is, and one
    /// rule at most and no effect where a rule is.
    pub open spec fn within(self, scope: Scope) -> bool {
        match scope {
            Scope::Story => true,
            Scope::Beat => self.beats.len() <= 1,
            Scope::Rule => self.beats.len() == 1 && self.beats[0].rules.len() <= 1
                && self.beats[0].effects.len() == 0,
        }
    }

    /// The draft with `beat` in place of its last beat, after a line of kind
    /// `stage`.
    pub open spec fn with_last_beat(self, beat: StoryBeatView, stage: Stage) -> DraftView {
        DraftView { name: self.name, beats: self.beats.update(self.beats.len() - 1, beat), stage }
    }

    /// The draft after one more line; `None` where that line may not follow.
    ///
    /// The story's heading comes first. A beat's heading follows the story's
    /// heading or an effect, a rule's heading follows a beat's heading or a
    /// condition, a condition follows a rule's heading or a condition, and an
    /// effect follows a condition or an effect. Blank lines change nothing.
    pub open spec fn accept(self, line: LineView) -> Option<DraftView> {
        let beat = self.beats.last();
        let rule = beat.rules.last();
        match line {
            LineView::Blank => Some(self),
            LineView::Story(name) => if self.stage == Stage::Start {
                Some(DraftView { name, beats: self.beats, stage: Stage::Story })
            } else {
                None
            },
            LineView::Beat(name) => if self.stage == Stage::Story || self.stage == Stage::Effect {
                Some(
                    DraftView {
                        name: self.name,
                        beats: self.beats.push(
                            StoryBeatView {
                                name,
                                rules: Seq::empty(),
                                effects: Seq::empty(),
                                finished: false,
                            },
                        ),
                        stage: Stage::Beat,
                    },
                )
            } else {
                None
            },
            LineView::Rule(name) => if self.stage == Stage::Beat || self.stage
                == Stage::Condition {
                Some(
                    self.with_last_beat(
                        StoryBeatView {
                            rules: beat.rules.push(RuleView { name, conditions: Seq::empty() }),
                            ..beat
                        },
                        Stage::Rule,
                    ),
                )
            } else {
                None
            },
            LineView::Condition(condition) => if self.stage == Stage::Rule || self.stage
                == Stage::Condition {
                Some(
                    self.with_last_beat(
                        StoryBeatView {
                            rules: beat.rules.update(
                                beat.rules.len() - 1,
                                RuleView {
                                    name: rule.name,
                                    conditions: rule.conditions.push(condition),
                                },
                            ),
                            ..beat
                        },
                        Stage::Condition,
                    ),
                )
            } else {
                None
            },
            LineView::Effect(effect) => if self.stage == Stage::Condition || self.stage
                == Stage::Effect {
                Some(
                    self.with_last_beat(
                        StoryBeatView { effects: beat.effects.push(effect), ..beat },
                        Stage::Effect,
                    ),
                )
            } else {
                None
            },
            LineView::Malformed => None,
        }
    }

    /// The draft after the line of index `number`, or why that line ends the
    /// reading: it is malformed, or it may not follow, or it begins more than
    /// is being read.
    pub open spec fn read(self, line: LineView, number: nat, scope: Scope) -> Result<
        DraftView,
        ParseError,
    > {
        match self.accept(line) {
            Some(next) => if next.within(scope) {
                Ok(next)
            } else {
                Err(ParseError::Unexpected { line: number as usize })
            },
            None => if line is Malformed {
                Err(ParseError::Malformed { line: number as usize })
            } else {
                Err(ParseError::Unexpected { line: number as usize })
            },
        }
    }

    /// The story that the draft has become. It is one when its last line was
    /// an effect.
    pub open spec fn story(self) -> Result<StoryView, ParseError> {
        if self.stage == Stage::Effect {
            Ok(StoryView { name: self.name, beats: self.beats, active_beat_index: 0 })
        } else {
            Err(ParseError::Incomplete)
        }
    }

    /// The beat that the draft has become. It is one when its last line was
    /// an effect.
    pub open spec fn beat(self) -> Result<StoryBeatView, ParseError> {
        if self.stage == Stage::Effect {
            Ok(self.beats[0])
        } else {
            Err(ParseError::Incomplete)
        }
    }

    /// The rule that the draft has become. It is one when its last line was
    /// a condition.
    pub open spec fn rule(self) -> Result<RuleView, ParseError> {
        if self.stage == Stage::Condition {
            Ok(self.beats[0].rules[0])
        } else {
            Err(ParseError::Incomplete)
        }
    }
}

/// The draft after the rest of a text was read. The line being read began at
/// `start`, has the index `number`, and holds no line break before `at`. Lines
/// end at `\n` and at the end of the text.
pub open spec fn read_from(
    draft: DraftView,
    s: Seq<char>,
    start: int,
    at: int,
    number: nat,
    scope: Scope,
) -> Result<DraftView, ParseError>
    decreases s.len() - at,
{
    if 0 <= at < s.len() && s[at] != '\n' {
        read_from(draft, s, start, at + 1, number, scope)
    } else {
        match draft.read(line_of(s.subrange(start, at)), number, scope) {
            Ok(next) => if 0 <= at < s.len() {
                read_from(next, s, at + 1, at + 1, number + 1, scope)
            } else {
                Ok(next)
            },
            Err(e) => Err(e),
        }
    }
}

/// The draft that a text gives when it is read as `scope`, or why it gives
/// none.
pub open spec fn draft_of(s: Seq<char>, scope: Scope) -> Result<DraftView, ParseError> {
    read_from(DraftView::start(scope), s, 0, 0, 0, scope)
}

/// The story that a text stands for, or why it stands for none.
pub open spec fn story_of(s: Seq<char>) -> Result<StoryView, ParseError> {
    match draft_of(s, Scope::Story) {
        Ok(draft) => draft.story(),
        Err(e) => Err(e),
    }
}

/// The beat that a text stands for, or why it stands for none: a beat's
/// heading, one or more rules and one or more effects, and nothing else.
pub open spec fn beat_of(s: Seq<char>) -> Result<StoryBeatView, ParseError> {
    match draft_of(s, Scope::Beat) {
        Ok(draft) => draft.beat(),
        Err(e) => Err(e),
    }
}

/// The rule that a text stands for, or why it stands for none: a rule's
/// heading and one or more conditions, and nothing else.
pub open spec fn rule_of(s: Seq<char>) -> Result<RuleView, ParseError> {
    match draft_of(s, Scope::Rule) {
        Ok(draft) => draft.rule(),
        Err(e) => Err(e),
    }
}

fn mark(kind: ConditionKind) -> (r: &'static str)
    ensures
        r@ == mark_of(kind),
{
    match kind {
        ConditionKind::IntEquals => "IntEquals(",
        ConditionKind::IntMoreThan => "IntMoreThan(",
        ConditionKind::IntLessThan => "IntLessThan(",
        ConditionKind::StringEquals => "StringEquals(",
        ConditionKind::BoolEquals => "BoolEquals(",
        ConditionKind::ListContains => "ListContains(",
    }
}

fn kind_of_call(line: &str) -> (r: Option<ConditionKind>)
    ensures
        r == call_kind(line@),
{
    if starts_with(line, mark(ConditionKind::IntEquals)) {
        Some(ConditionKind::IntEquals)
    } else if starts_with(line, mark(ConditionKind::IntMoreThan)) {
        Some(ConditionKind::IntMoreThan)
    } else if starts_with(line, mark(ConditionKind::IntLessThan)) {
        Some(ConditionKind::IntLessThan)
    } else if starts_with(line, mark(ConditionKind::StringEquals)) {
        Some(ConditionKind::StringEquals)
    } else if starts_with(line, mark(ConditionKind::BoolEquals)) {
        Some(ConditionKind::BoolEquals)
    } else if starts_with(line, mark(ConditionKind::ListContains)) {
        Some(ConditionKind::ListContains)
    } else {
        None
    }
}

/// The option of a condition's view.
pub open spec fn condition_view(c: Option<Condition>) -> Option<ConditionView> {
    match c {
        Some(condition) => Some(condition@),
        None => None,
    }
}

/// The option of an effect's view.
pub open spec fn effect_view(e: Option<Effect>) -> Option<EffectView> {
    match e {
        Some(effect) => Some(effect@),
        None => None,
    }
}

fn condition_typed(kind: ConditionKind, fact_name: &str, value: &str) -> (r: Option<Condition>)
    ensures
        condition_view(r) == typed_condition(kind, fact_name@, value@),
{
    let fact_name = String::from_str(fact_name);
    match kind {
        ConditionKind::IntEquals => match parse_int(value) {
            Some(expected_value) => Some(Condition::IntEquals { fact_name, expected_value }),
            None => None,
        },
        ConditionKind::IntMoreThan => match parse_int(value) {
            Some(expected_value) => Some(Condition::IntMoreThan { fact_name, expected_value }),
            None => None,
        },
        ConditionKind::IntLessThan => match parse_int(value) {
            Some(expected_value) => Some(Condition::IntLessThan { fact_name, expected_value }),
            None => None,
        },
        ConditionKind::StringEquals => Some(
            Condition::StringEquals {
                fact_name,
                expected_value: String::from_str(unquote(value)),
            },
        ),
        ConditionKind::BoolEquals => match parse_bool(value) {
            Some(expected_value) => Some(Condition::BoolEquals { fact_name, expected_value }),
            None => None,
        },
        ConditionKind::ListContains => Some(
            Condition::ListContains {
                fact_name,
                expected_value: String::from_str(unquote(value)),
            },
        ),
    }
}

fn condition_equality(fact_name: &str, value: &str) -> (r: Condition)
    ensures
        r@ == equality(fact_name@, value@),
{
    let fact_name = String::from_str(fact_name);
    match parse_int(value) {
        Some(expected_value) => Condition::IntEquals { fact_name, expected_value },
        None => match parse_bool(value) {
            Some(expected_value) => Condition::BoolEquals { fact_name, expected_value },
            None => Condition::StringEquals {
                fact_name,
                expected_value: String::from_str(unquote(value)),
            },
        },
    }
}

fn condition_called(line: &str, kind: ConditionKind) -> (r: Option<Condition>)
    ensures
        condition_view(r) == call_condition(line@, kind),
{
    let chars = chars_of(line);
    let len = chars.len();
    let mark_len = mark(kind).unicode_len();
    if len <= mark_len || chars[len - 1] != ')' {
        return None;
    }
    let inner = line.substring_char(mark_len, len - 1);
    let inner_chars = chars_of(inner);
    let comma = find(&inner_chars, ',', 0);
    if comma >= inner_chars.len() {
        return None;
    }
    let fact_name = trim(inner.substring_char(0, comma));
    let value = trim(inner.substring_char(comma + 1, inner_chars.len()));
    if !is_name(fact_name) {
        return None;
    }
    condition_typed(kind, fact_name, value)
}

fn condition_infixed(line: &str) -> (r: Option<Condition>)
    ensures
        condition_view(r) == infix_condition(line@),
{
    let (fact_name, rest) = split_word(line);
    let (op, value) = split_word(rest);
    if !is_name(fact_name) {
        None
    } else if same_text(op, "==") {
        Some(condition_equality(fact_name, value))
    } else if same_text(op, ">") {
        condition_typed(ConditionKind::IntMoreThan, fact_name, value)
    } else if same_text(op, "<") {
        condition_typed(ConditionKind::IntLessThan, fact_name, value)
    } else if same_text(op, "contains") {
        condition_typed(ConditionKind::ListContains, fact_name, value)
    } else if same_text(op, "equals") {
        condition_typed(ConditionKind::StringEquals, fact_name, value)
    } else {
        None
    }
}

fn condition_in(line: &str) -> (r: Option<Condition>)
    ensures
        condition_view(r) == condition_of(line@),
{
    match kind_of_call(line) {
        Some(kind) => condition_called(line, kind),
        None => condition_infixed(line),
    }
}

/// Reads a condition, written as a call or with an operator. `None` where the
/// text is no condition.
pub fn parse_condition(text: &str) -> (r: Option<Condition>)
    ensures
        condition_view(r) == condition_of(trimmed(text@)),
{
    condition_in(trim(text))
}

/// Reads a list of items separated by commas into a set.
pub fn parse_list(value: &str) -> (r: StringHashSet)
    ensures
        r@ == list_items(value@),
{
    let chars = chars_of(value);
    let mut items = StringHashSet::new();
    if chars.len() == 0 {
        return items;
    }
    let mut start: usize = 0;
    let mut at: usize = 0;
    loop
        invariant
            start <= at <= chars.len(),
            chars@ == value@,
            items@.union(items_from(value@, start as int, at as int)) == items_from(value@, 0, 0),
        ensures
            items@ == items_from(value@, 0, 0),
        decreases chars.len() - at,
    {
        if at < chars.len() && chars[at] != ',' {
            at += 1;
        } else {
            let piece = trim(value.substring_char(start, at));
            items.insert(String::from_str(piece));
            if at < chars.len() {
                at += 1;
                start = at;
            } else {
                break ;
            }
        }
    }
    items
}

fn fact_typed(kind: &str, name: &str, value: &str) -> (r: Option<Fact>)
    ensures
        match r {
            Some(fact) => typed_value(kind@, value@) == Some(fact@.value) && fact@.name == name@,
            None => typed_value(kind@, value@) is None,
        },
{
    let name = String::from_str(name);
    if same_text(kind, "Int") {
        match parse_int(value) {
            Some(number) => Some(Fact::Int(name, number)),
            None => None,
        }
    } else if same_text(kind, "String") {
        Some(Fact::String(name, String::from_str(unquote(value))))
    } else if same_text(kind, "Bool") {
        match parse_bool(value) {
            Some(flag) => Some(Fact::Bool(name, flag)),
            None => None,
        }
    } else if same_text(kind, "StringList") {
        Some(Fact::StringList(name, parse_list(value)))
    } else {
        None
    }
}

fn effect_in(line: &str) -> (r: Option<Effect>)
    ensures
        effect_view(r) == effect_of(line@),
{
    if !starts_with(line, "- Set ") {
        return None;
    }
    let body = left_trim(skip_chars(line, "- Set ".unicode_len()));
    let (kind, named) = split_word(body);
    let (name, told) = split_word(named);
    let (to, value) = split_word(told);
    if !is_name(name) || !same_text(to, "to") {
        return None;
    }
    match fact_typed(kind, name, value) {
        Some(fact) => Some(Effect::SetFact(fact)),
        None => None,
    }
}

/// Reads an effect of the form `- Set <Kind> <fact> to <value>`. `None` where
/// the text is no effect.
pub fn parse_effect(text: &str) -> (r: Option<Effect>)
    ensures
        effect_view(r) == effect_of(trimmed(text@)),
{
    effect_in(trim(text))
}

fn name_in<'a>(line: &'a str, mark: &str) -> (r: String)
    requires
        mark@.is_prefix_of(line@),
    ensures
        r@ == heading(line@, mark@),
{
    String::from_str(trim(skip_chars(line, mark.unicode_len())))
}

/// Reads one line of a story's text.
pub fn parse_line(raw: &str) -> (r: Line)
    ensures
        r@ == line_of(raw@),
{
    let line = trim(raw);
    if line.unicode_len() == 0 {
        Line::Blank
    } else if starts_with(line, "# Story: ") {
        Line::Story(name_in(line, "# Story: "))
    } else if starts_with(line, "## StoryBeat: ") {
        Line::Beat(name_in(line, "## StoryBeat: "))
    } else if starts_with(line, "### Rule: ") {
        Line::Rule(name_in(line, "### Rule: "))
    } else if starts_with(line, "- Rule: ") {
        Line::Rule(name_in(line, "- Rule: "))
    } else if starts_with(line, "- Set ") {
        match effect_in(line) {
            Some(effect) => Line::Effect(effect),
            None => Line::Malformed,
        }
    } else {
        match condition_in(line) {
            Some(condition) => Line::Condition(condition),
            None => Line::Malformed,
        }
    }
}

/// The story that is being read.
struct Draft {
    name: String,
    beats: Vec<StoryBeat>,
    stage: Stage,
}

impl View for Draft {
    type V = DraftView;

    closed spec fn view(&self) -> DraftView {
        DraftView { name: self.name@, beats: beat_views(self.beats@), stage: self.stage }
    }
}

impl Draft {
    /// After a beat's heading there is a beat, and after a rule's heading the
    /// last beat has a rule.
    spec fn wf(self) -> bool {
        &&& (self.stage == Stage::Beat || self.stage == Stage::Rule || self.stage
            == Stage::Condition || self.stage == Stage::Effect) ==> self.beats@.len() > 0
        &&& (self.stage == Stage::Rule || self.stage == Stage::Condition)
            ==> self.beats@.last().rules@.len() > 0
    }

    fn new(scope: Scope) -> (r: Self)
        ensures
            r@ == DraftView::start(scope),
            r@.within(scope),
            r.wf(),
    {
        let mut beats: Vec<StoryBeat> = Vec::new();
        let stage = match scope {
            Scope::Story => Stage::Start,
            Scope::Beat => Stage::Story,
            Scope::Rule => {
                let beat = StoryBeat {
                    name: String::new(),
                    rules: Vec::new(),
                    effects: Vec::new(),
                    finished: false,
                };
                assert(rule_views(beat.rules@) =~= Seq::empty());
                assert(effect_views(beat.effects@) =~= Seq::empty());
                beats.push(beat);
                Stage::Beat
            },
        };
        let r = Draft { name: String::new(), beats, stage };
        assert(r@.beats =~= DraftView::start(scope).beats);
        r
    }

    /// Whether the draft holds no more than is being read.
    fn within(&self, scope: Scope) -> (r: bool)
        ensures
            r == self@.within(scope),
    {
        match scope {
            Scope::Story => true,
            Scope::Beat => self.beats.len() <= 1,
            Scope::Rule => self.beats.len() == 1 && self.beats[0].rules.len() <= 1
                && self.beats[0].effects.len() == 0,
        }
    }

    /// Takes one more line in, where it may follow.
    fn accept(&mut self, line: Line) -> (r: bool)
        requires
            old(self).wf(),
        ensures
            final(self).wf(),
            match old(self)@.accept(line@) {
                Some(next) => r && final(self)@ == next,
                None => !r && final(self)@ == old(self)@,
            },
    {
        let ghost before = self@;
        match line {
            Line::Blank => true,
            Line::Story(name) => {
                if self.stage == Stage::Start {
                    self.name = name;
                    self.stage = Stage::Story;
                    true
                } else {
                    false
                }
            },
            Line::Beat(name) => {
                if self.stage == Stage::Story || self.stage == Stage::Effect {
                    let beat = StoryBeat {
                        name,
                        rules: Vec::new(),
                        effects: Vec::new(),
                        finished: false,
                    };
                    proof {
                        assert(rule_views(beat.rules@) =~= Seq::empty());
                        assert(effect_views(beat.effects@) =~= Seq::empty());
                    }
                    self.beats.push(beat);
                    self.stage = Stage::Beat;
                    proof {
                        assert(self@.beats =~= before.beats.push(beat@));
                    }
                    true
                } else {
                    false
                }
            },
            Line::Rule(name) => {
                if self.stage == Stage::Beat || self.stage == Stage::Condition {
                    let last = self.beats.len() - 1;
                    let rule = Rule { name, conditions: Vec::new() };
                    proof {
                        assert(condition_views(rule.conditions@) =~= Seq::empty());
                    }
                    let ghost rules = rule_views(self.beats@[last as int].rules@);
                    self.beats[last].rules.push(rule);
                    self.stage = Stage::Rule;
                    proof {
                        assert(rule_views(self.beats@[last as int].rules@) =~= rules.push(rule@));
                        assert(self@.beats =~= before.beats.update(
                            last as int,
                            StoryBeatView { rules: rules.push(rule@), ..before.beats[last as int] },
                        ));
                    }
                    true
                } else {
                    false
                }
            },
            Line::Condition(condition) => {
                if self.stage == Stage::Rule || self.stage == Stage::Condition {
                    let last = self.beats.len() - 1;
                    let open = self.beats[last].rules.len() - 1;
                    let ghost rules = rule_views(self.beats@[last as int].rules@);
                    let ghost conditions = rules[open as int].conditions;
                    self.beats[last].rules[open].conditions.push(condition);
                    self.stage = Stage::Condition;
                    proof {
                        let rule = RuleView {
                            name: rules[open as int].name,
                            conditions: conditions.push(condition@),
                        };
                        assert(condition_views(
                            self.beats@[last as int].rules@[open as int].conditions@,
                        ) =~= conditions.push(condition@));
                        assert(rule_views(self.beats@[last as int].rules@) =~= rules.update(
                            open as int,
                            rule,
                        ));
                        assert(self@.beats =~= before.beats.update(
                            last as int,
                            StoryBeatView {
                                rules: rules.update(open as int, rule),
                                ..before.beats[last as int]
                            },
                        ));
                    }
                    true
                } else {
                    false
                }
            },
            Line::Effect(effect) => {
                if self.stage == Stage::Condition || self.stage == Stage::Effect {
                    let last = self.beats.len() - 1;
                    let ghost effects = effect_views(self.beats@[last as int].effects@);
                    self.beats[last].effects.push(effect);
                    self.stage = Stage::Effect;
                    proof {
                        assert(effect_views(self.beats@[last as int].effects@) =~= effects.push(
                            effect@,
                        ));
                        assert(self@.beats =~= before.beats.update(
                            last as int,
                            StoryBeatView {
                                effects: effects.push(effect@),
                                ..before.beats[last as int]
                            },
                        ));
                    }
                    true
                } else {
                    false
                }
            },
            Line::Malformed => false,
        }
    }

    /// The beat, once the last line was an effect.
    fn beat(self) -> (r: Result<StoryBeat, ParseError>)
        requires
            self.wf(),
            self@.within(Scope::Beat),
        ensures
            match self@.beat() {
                Ok(beat) => r is Ok && r->Ok_0@ == beat,
                Err(e) => r == Err::<StoryBeat, ParseError>(e),
            },
    {
        if self.stage == Stage::Effect {
            let mut beats = self.beats;
            Ok(beats.remove(0))
        } else {
            Err(ParseError::Incomplete)
        }
    }

    /// The rule, once the last line was a condition.
    fn rule(self) -> (r: Result<Rule, ParseError>)
        requires
            self.wf(),
            self@.within(Scope::Rule),
        ensures
            match self@.rule() {
                Ok(rule) => r is Ok && r->Ok_0@ == rule,
                Err(e) => r == Err::<Rule, ParseError>(e),
            },
    {
        if self.stage == Stage::Condition {
            let mut beats = self.beats;
            let mut rules = beats.remove(0).rules;
            Ok(rules.remove(0))
        } else {
            Err(ParseError::Incomplete)
        }
    }

    /// The story, once the last line was an effect.
    fn story(self) -> (r: Result<Story, ParseError>)
        ensures
            match self@.story() {
                Ok(story) => r is Ok && r->Ok_0@ == story,
                Err(e) => r == Err::<Story, ParseError>(e),
            },
    {
        if self.stage == Stage::Effect {
            Ok(Story { name: self.name, beats: self.beats, active_beat_index: 0 })
        } else {
            Err(ParseError::Incomplete)
        }
    }
}

/// Reads a text as `scope`, line by line.
fn read_text(input: &str, scope: Scope) -> (r: Result<Draft, ParseError>)
    ensures
        match draft_of(input@, scope) {
            Ok(draft) => r is Ok && r->Ok_0@ == draft && r->Ok_0.wf() && draft.within(scope),
            Err(e) => r is Err && r->Err_0 == e,
        },
{
    let chars = chars_of(input);
    let mut draft = Draft::new(scope);
    let mut start: usize = 0;
    let mut at: usize = 0;
    let mut number: usize = 0;
    loop
        invariant_except_break
            draft_of(input@, scope) == read_from(
                draft@,
                input@,
                start as int,
                at as int,
                number as nat,
                scope,
            ),
        invariant
            start <= at <= chars.len(),
            number <= start,
            chars@ == input@,
            draft.wf(),
            draft@.within(scope),
        ensures
            draft_of(input@, scope) == Ok::<DraftView, ParseError>(draft@),
        decreases chars.len() - at,
    {
        if at < chars.len() && chars[at] != '\n' {
            at += 1;
        } else {
            let line = parse_line(input.substring_char(start, at));
            let malformed = match line {
                Line::Malformed => true,
                _ => false,
            };
            if !draft.accept(line) {
                if malformed {
                    return Err(ParseError::Malformed { line: number });
                } else {
                    return Err(ParseError::Unexpected { line: number });
                }
            }
            if !draft.within(scope) {
                return Err(ParseError::Unexpected { line: number });
            }
            if at < chars.len() {
                at += 1;
                start = at;
                number += 1;
            } else {
                break ;
            }
        }
    }
    Ok(draft)
}

/// Reads a story. A text that is no story gives no part of one: the error
/// says which line is at fault, or that the text ends too early.
pub fn parse_story(input: &str) -> (r: Result<Story, ParseError>)
    ensures
        match story_of(input@) {
            Ok(story) => r is Ok && r->Ok_0@ == story,
            Err(e) => r == Err::<Story, ParseError>(e),
        },
{
    match read_text(input, Scope::Story) {
        Ok(draft) => draft.story(),
        Err(e) => Err(e),
    }
}

/// Reads one beat: its heading, one or more rules and one or more effects.
pub fn parse_story_beat(input: &str) -> (r: Result<StoryBeat, ParseError>)
    ensures
        match beat_of(input@) {
            Ok(beat) => r is Ok && r->Ok_0@ == beat,
            Err(e) => r == Err::<StoryBeat, ParseError>(e),
        },
{
    match read_text(input, Scope::Beat) {
        Ok(draft) => draft.beat(),
        Err(e) => Err(e),
    }
}

/// Reads one rule: its heading and one or more conditions.
pub fn parse_rule(input: &str) -> (r: Result<Rule, ParseError>)
    ensures
        match rule_of(input@) {
            Ok(rule) => r is Ok && r->Ok_0@ == rule,
            Err(e) => r == Err::<Rule, ParseError>(e),
        },
{
    match read_text(input, Scope::Rule) {
        Ok(draft) => draft.rule(),
        Err(e) => Err(e),
    }
}

} // verus!
