//! The header dependency scanner: conditional inclusion, the events of one
//! file, and the walk over the include graph.
//!
//! Conditions are three-valued: what the known macros cannot decide is
//! traversed, so that no real dependency is missed.
use vstd::prelude::*;
use crate::cexpr::{eval_expr, eval_spec};
use crate::macro_table::MacroTable;
use crate::pptext::{
    Directive, IncludeKind, SpecDirective, parse_directive, parse_directive_spec, parse_include,
    parse_include_spec, parse_pragma_comment_lib, parse_pragma_spec, preprocess_text,
    preprocess_text_spec,
};
use crate::text::{replace, replace_str, seq_of_strings, str_eq, trim, trim_str};
use crate::winpath::{join_path, join_spec, normalize_lexically, normalize_spec, parent, parent_spec};

verus! {

/// A three-valued condition.
#[derive(Clone, Copy, PartialEq, Eq, Structural, Debug)]
pub enum Tri {
    True,
    False,
    Unknown,
}

pub open spec fn negate_spec(t: Tri) -> Tri {
    match t {
        Tri::True => Tri::False,
        Tri::False => Tri::True,
        Tri::Unknown => Tri::Unknown,
    }
}

impl Tri {
    pub fn negate(self) -> (r: Tri)
        ensures
            r == negate_spec(self),
    {
        match self {
            Tri::True => Tri::False,
            Tri::False => Tri::True,
            Tri::Unknown => Tri::Unknown,
        }
    }
}

/// The condition of a `#if` value: zero is false, other numbers true, an
/// undecided value unknown.
pub open spec fn tri_of(v: Option<i64>) -> Tri {
    match v {
        Some(x) => if x == 0 {
            Tri::False
        } else {
            Tri::True
        },
        None => Tri::Unknown,
    }
}

/// A frame of the conditional-inclusion stack.
#[derive(Clone, Copy, PartialEq, Eq, Structural, Debug)]
pub struct Frame {
    /// This branch is (possibly) active.
    pub active: bool,
    /// A branch of this chain was definitely taken; later ones are dead.
    pub taken: bool,
    /// The enclosing context was active when the `#if` opened.
    pub parent_active: bool,
}

pub open spec fn dead_spec(parent_active: bool) -> Frame {
    Frame { active: false, taken: false, parent_active }
}

/// A frame for a condition: dead in a dead context; else active unless
/// false, and taken only when true.
pub open spec fn from_tri_spec(parent_active: bool, tri: Tri) -> Frame {
    if !parent_active {
        dead_spec(parent_active)
    } else {
        match tri {
            Tri::True => Frame { active: true, taken: true, parent_active },
            Tri::False => Frame { active: false, taken: false, parent_active },
            Tri::Unknown => Frame { active: true, taken: false, parent_active },
        }
    }
}

impl Frame {
    pub fn dead(parent_active: bool) -> (r: Frame)
        ensures
            r == dead_spec(parent_active),
    {
        Frame { active: false, taken: false, parent_active }
    }

    pub fn from_tri(parent_active: bool, tri: Tri) -> (r: Frame)
        ensures
            r == from_tri_spec(parent_active, tri),
    {
        if !parent_active {
            return Frame::dead(parent_active);
        }
        match tri {
            Tri::True => Frame { active: true, taken: true, parent_active },
            Tri::False => Frame { active: false, taken: false, parent_active },
            Tri::Unknown => Frame { active: true, taken: false, parent_active },
        }
    }
}

/// Every enclosing branch is (possibly) active.
pub open spec fn all_active(stack: Seq<Frame>) -> bool {
    forall|i: int| 0 <= i < stack.len() ==> #[trigger] stack[i].active
}

pub fn active(stack: &Vec<Frame>) -> (r: bool)
    ensures
        r == all_active(stack@),
{
    let mut i: usize = 0;
    while i < stack.len()
        invariant
            i <= stack.len(),
            forall|k: int| 0 <= k < i ==> #[trigger] stack@[k].active,
        decreases stack.len() - i,
    {
        if !stack[i].active {
            return false;
        }
        i += 1;
    }
    true
}

/// `defined NAME`: true for a known macro, else unknown (it may come from a
/// header or definition that is not tracked).
pub open spec fn tri_defined_spec(m: Map<Seq<char>, Seq<char>>, name: Seq<char>) -> Tri {
    if m.contains_key(name) {
        Tri::True
    } else {
        Tri::Unknown
    }
}

pub fn tri_defined(macros: &MacroTable, name: &str) -> (r: Tri)
    ensures
        r == tri_defined_spec(macros@, name@),
{
    if macros.contains_key(name) {
        Tri::True
    } else {
        Tri::Unknown
    }
}

/// The condition of a `#if` expression.
pub fn eval_if(macros: &MacroTable, expr: &str) -> (r: Tri)
    ensures
        r == tri_of(eval_spec(expr@, macros@)),
{
    match eval_expr(expr, macros) {
        Some(x) => if x == 0 {
            Tri::False
        } else {
            Tri::True
        },
        None => Tri::Unknown,
    }
}

/// What a line of a file asks the scanner to do.
#[derive(Debug)]
pub enum FileEvent {
    /// Follow an include (in an active region).
    Include(IncludeKind, String),
    /// A `#pragma comment(lib, ...)` library (in an active region).
    Pragma(String),
    /// A directive that is not handled: its keyword and the trimmed line.
    Unknown(String, String),
}

pub enum SpecFileEvent {
    Include(IncludeKind, Seq<char>),
    Pragma(Seq<char>),
    Unknown(Seq<char>, Seq<char>),
}

impl View for FileEvent {
    type V = SpecFileEvent;

    open spec fn view(&self) -> SpecFileEvent {
        match self {
            FileEvent::Include(k, n) => SpecFileEvent::Include(*k, n@),
            FileEvent::Pragma(l) => SpecFileEvent::Pragma(l@),
            FileEvent::Unknown(k, l) => SpecFileEvent::Unknown(k@, l@),
        }
    }
}

pub open spec fn events_view(v: Seq<FileEvent>) -> Seq<SpecFileEvent> {
    v.map_values(|e: FileEvent| e@)
}

/// `#elif`/`#else` on the top frame: dead after a taken branch or in a dead
/// context; else as the condition says (an `#else` is true).
pub open spec fn next_branch(top: Frame, tri: Tri) -> Frame {
    if !top.parent_active || top.taken {
        Frame { active: false, ..top }
    } else {
        match tri {
            Tri::True => Frame { active: true, taken: true, ..top },
            Tri::False => Frame { active: false, ..top },
            Tri::Unknown => Frame { active: true, ..top },
        }
    }
}

/// The effect of one line on the conditional stack: the new stack and the
/// events of the line.
pub open spec fn line_step(frames: Seq<Frame>, line: Seq<char>, m: Map<Seq<char>, Seq<char>>) -> (
    Seq<Frame>,
    Seq<SpecFileEvent>,
) {
    match parse_directive_spec(line) {
        None => (frames, Seq::empty()),
        Some(d) => match d {
            SpecDirective::If(e) => if !all_active(frames) {
                (frames.push(dead_spec(false)), Seq::empty())
            } else {
                (
                    frames.push(from_tri_spec(true, tri_of(eval_spec(e, m)))),
                    Seq::empty(),
                )
            },
            SpecDirective::Ifdef(n) => (
                frames.push(from_tri_spec(all_active(frames), tri_defined_spec(m, n))),
                Seq::empty(),
            ),
            SpecDirective::Ifndef(n) => (
                frames.push(
                    from_tri_spec(all_active(frames), negate_spec(tri_defined_spec(m, n))),
                ),
                Seq::empty(),
            ),
            SpecDirective::Elif(e) => if frames.len() == 0 {
                (frames, Seq::empty())
            } else {
                let top = frames.last();
                if !top.parent_active || top.taken {
                    (frames.update(frames.len() - 1, next_branch(top, Tri::False)), Seq::empty())
                } else {
                    (
                        frames.update(
                            frames.len() - 1,
                            next_branch(top, tri_of(eval_spec(e, m))),
                        ),
                        Seq::empty(),
                    )
                }
            },
            SpecDirective::Else => if frames.len() == 0 {
                (frames, Seq::empty())
            } else {
                (frames.update(frames.len() - 1, next_branch(frames.last(), Tri::True)), Seq::empty())
            },
            SpecDirective::Endif => if frames.len() == 0 {
                (frames, Seq::empty())
            } else {
                (frames.drop_last(), Seq::empty())
            },
            SpecDirective::Include(spec) => (
                frames,
                if all_active(frames) {
                    match parse_include_spec(spec) {
                        Some((k, n)) => seq![SpecFileEvent::Include(k, n)],
                        None => Seq::empty(),
                    }
                } else {
                    Seq::empty()
                },
            ),
            SpecDirective::Pragma(rest) => (
                frames,
                if all_active(frames) {
                    match parse_pragma_spec(rest) {
                        Some(lib) => seq![SpecFileEvent::Pragma(lib)],
                        None => Seq::empty(),
                    }
                } else {
                    Seq::empty()
                },
            ),
            SpecDirective::Ignored => (frames, Seq::empty()),
            SpecDirective::Unknown(kw) => (frames, seq![SpecFileEvent::Unknown(kw, trim(line))]),
        },
    }
}

/// The walk over the lines: the final stack and all events in order.
pub open spec fn walk_lines(lines: Seq<Seq<char>>, m: Map<Seq<char>, Seq<char>>) -> (
    Seq<Frame>,
    Seq<SpecFileEvent>,
)
    decreases lines.len(),
{
    if lines.len() == 0 {
        (Seq::empty(), Seq::empty())
    } else {
        let (fr, ev) = walk_lines(lines.drop_last(), m);
        let (fr2, ev2) = line_step(fr, lines.last(), m);
        (fr2, ev + ev2)
    }
}

pub open spec fn file_events_spec(content: Seq<char>, m: Map<Seq<char>, Seq<char>>) -> (
    Seq<Frame>,
    Seq<SpecFileEvent>,
) {
    walk_lines(preprocess_text_spec(content), m)
}

fn next_branch_exec(top: Frame, tri: Tri) -> (r: Frame)
    ensures
        r == next_branch(top, tri),
{
    if !top.parent_active || top.taken {
        Frame { active: false, ..top }
    } else {
        match tri {
            Tri::True => Frame { active: true, taken: true, ..top },
            Tri::False => Frame { active: false, ..top },
            Tri::Unknown => Frame { active: true, ..top },
        }
    }
}

/// One line: updates the stack, appends the line's events, and tells
/// whether an evaluated condition negates `i64::MIN`.
fn step_line(stack: &mut Vec<Frame>, events: &mut Vec<FileEvent>, line: &String, macros: &MacroTable)
    ensures
        final(stack)@ == line_step(old(stack)@, line@, macros@).0,
        events_view(final(events)@) == events_view(old(events)@) + line_step(old(stack)@, line@, macros@).1,
{
    let ghost before = events_view(events@);
    let d = match parse_directive(line.as_str()) {
        Some(d) => d,
        None => {
            assert(events_view(events@) =~= before + Seq::<SpecFileEvent>::empty());
            return;
        },
    };
    let ghost n = stack.len();
    match d {
        Directive::If(e) => {
            let parent = active(stack);
            if !parent {
                stack.push(Frame::dead(parent));
                assert(events_view(events@) =~= before + Seq::<SpecFileEvent>::empty());
            } else {
                let t = eval_if(macros, e.as_str());
                stack.push(Frame::from_tri(parent, t));
                assert(events_view(events@) =~= before + Seq::<SpecFileEvent>::empty());
            }
        },
        Directive::Ifdef(name) => {
            let parent = active(stack);
            let t = tri_defined(macros, name.as_str());
            stack.push(Frame::from_tri(parent, t));
            assert(events_view(events@) =~= before + Seq::<SpecFileEvent>::empty());
        },
        Directive::Ifndef(name) => {
            let parent = active(stack);
            let t = tri_defined(macros, name.as_str()).negate();
            stack.push(Frame::from_tri(parent, t));
            assert(events_view(events@) =~= before + Seq::<SpecFileEvent>::empty());
        },
        Directive::Elif(e) => {
            assert(events_view(events@) =~= before + Seq::<SpecFileEvent>::empty());
            if stack.len() == 0 {
                return;
            }
            let top = stack[stack.len() - 1];
            if !top.parent_active || top.taken {
                let last = stack.len() - 1;
                stack.set(last, next_branch_exec(top, Tri::False));
            } else {
                let t = eval_if(macros, e.as_str());
                let last = stack.len() - 1;
                stack.set(last, next_branch_exec(top, t));
            }
        },
        Directive::Else => {
            assert(events_view(events@) =~= before + Seq::<SpecFileEvent>::empty());
            if stack.len() == 0 {
                return;
            }
            let top = stack[stack.len() - 1];
            let last = stack.len() - 1;
            stack.set(last, next_branch_exec(top, Tri::True));
        },
        Directive::Endif => {
            assert(events_view(events@) =~= before + Seq::<SpecFileEvent>::empty());
            stack.pop();
        },
        Directive::Include(spec) => {
            if active(stack) {
                match parse_include(spec.as_str()) {
                    Some((kind, name)) => {
                        events.push(FileEvent::Include(kind, name));
                    },
                    None => {},
                }
            }
            assert(events_view(events@) =~= before + line_step(old(stack)@, line@, macros@).1);
        },
        Directive::Pragma(rest) => {
            if active(stack) {
                match parse_pragma_comment_lib(rest.as_str()) {
                    Some(lib) => {
                        events.push(FileEvent::Pragma(lib));
                    },
                    None => {},
                }
            }
            assert(events_view(events@) =~= before + line_step(old(stack)@, line@, macros@).1);
        },
        Directive::Ignored => {
            assert(events_view(events@) =~= before + Seq::<SpecFileEvent>::empty());
        },
        Directive::Unknown { keyword } => {
            let t = trim_str(line.as_str());
            events.push(FileEvent::Unknown(keyword, t));
            assert(events_view(events@) =~= before + line_step(old(stack)@, line@, macros@).1);
        },
    }
}

/// The events of a file's text (see [`walk_lines`]).
pub fn file_events(content: &str, macros: &MacroTable) -> (r: Vec<FileEvent>)
    ensures
        events_view(r@) == file_events_spec(content@, macros@).1,
{
    let lines = preprocess_text(content);
    let ghost ls = seq_of_strings(lines@);
    let mut stack: Vec<Frame> = Vec::new();
    let mut events: Vec<FileEvent> = Vec::new();
    let mut i: usize = 0;
    assert(ls.take(0) =~= Seq::<Seq<char>>::empty());
    assert(events_view(events@) =~= Seq::<SpecFileEvent>::empty());
    while i < lines.len()
        invariant
            i <= lines.len(),
            ls == seq_of_strings(lines@),
            ls == preprocess_text_spec(content@),
            stack@ == walk_lines(ls.take(i as int), macros@).0,
            events_view(events@) == walk_lines(ls.take(i as int), macros@).1,
        decreases lines.len() - i,
    {
        assert(ls.take(i + 1).drop_last() =~= ls.take(i as int));
        assert(ls.take(i + 1).last() == lines@[i as int]@);
        step_line(&mut stack, &mut events, &lines[i], macros);
        i += 1;
    }
    assert(ls.take(lines.len() as int) =~= ls);
    events
}


//
// Laws of the conditional stack
//

/// Law: negation swaps a known condition and leaves an unknown one unknown;
/// negating twice gives the condition back.
pub proof fn lemma_negate_laws(t: Tri)
    ensures
        negate_spec(negate_spec(t)) == t,
        negate_spec(t) == Tri::Unknown <==> t == Tri::Unknown,
        t == Tri::True <==> negate_spec(t) == Tri::False,
{
}

/// Law: `#ifndef` of a macro that is not known, in an active region, opens
/// an active region: an include guard's body is walked, never pruned.
pub proof fn lemma_ifndef_unknown_is_walked(
    frames: Seq<Frame>,
    line: Seq<char>,
    m: Map<Seq<char>, Seq<char>>,
    name: Seq<char>,
)
    requires
        parse_directive_spec(line) == Some(SpecDirective::Ifndef(name)),
        !m.contains_key(name),
        all_active(frames),
    ensures
        all_active(line_step(frames, line, m).0),
        line_step(frames, line, m).0.len() == frames.len() + 1,
{
    let next = line_step(frames, line, m).0;
    assert(next == frames.push(from_tri_spec(true, negate_spec(tri_defined_spec(m, name)))));
    assert forall|i: int| 0 <= i < next.len() implies #[trigger] next[i].active by {
        if i < frames.len() {
            assert(next[i] == frames[i]);
        }
    }
}

/// Law: an `#include` right under `#ifndef` of a macro that is not known (the
/// first lines of a header guard) is followed.
pub proof fn lemma_guarded_include_followed(
    guard: Seq<char>,
    inc_line: Seq<char>,
    m: Map<Seq<char>, Seq<char>>,
    name: Seq<char>,
    spec: Seq<char>,
    kind: IncludeKind,
    file: Seq<char>,
)
    requires
        parse_directive_spec(guard) == Some(SpecDirective::Ifndef(name)),
        !m.contains_key(name),
        parse_directive_spec(inc_line) == Some(SpecDirective::Include(spec)),
        parse_include_spec(spec) == Some((kind, file)),
    ensures
        walk_lines(seq![guard, inc_line], m).1.contains(SpecFileEvent::Include(kind, file)),
{
    let ls = seq![guard, inc_line];
    assert(ls.drop_last() =~= seq![guard]);
    assert(seq![guard].drop_last() =~= Seq::<Seq<char>>::empty());
    assert(all_active(Seq::<Frame>::empty()));
    lemma_ifndef_unknown_is_walked(Seq::empty(), guard, m, name);
    let fr = walk_lines(seq![guard], m).0;
    let w0 = walk_lines(seq![guard].drop_last(), m);
    assert(w0 == walk_lines(Seq::<Seq<char>>::empty(), m));
    assert(w0.0 =~= Seq::<Frame>::empty());
    assert(seq![guard].last() == guard);
    assert(fr == line_step(w0.0, guard, m).0);
    assert(fr == line_step(Seq::empty(), guard, m).0);
    assert(all_active(fr));
    let ev = walk_lines(ls, m).1;
    assert(line_step(fr, inc_line, m).1 == seq![SpecFileEvent::Include(kind, file)]);
    assert(ev[ev.len() - 1] == SpecFileEvent::Include(kind, file));
}

/// Law: `#if e` in an active region opens a region that is walked unless
/// `e` is known to be zero, and that counts as taken when `e` is known to be
/// non-zero; in a dead region it opens a dead one.
pub proof fn lemma_if_region(frames: Seq<Frame>, line: Seq<char>, m: Map<Seq<char>, Seq<char>>, e: Seq<char>)
    requires
        parse_directive_spec(line) == Some(SpecDirective::If(e)),
    ensures
        line_step(frames, line, m).0.len() == frames.len() + 1,
        line_step(frames, line, m).0.drop_last() == frames,
        all_active(frames) ==> (line_step(frames, line, m).0.last().active <==> eval_spec(e, m) != Some(0i64)),
        all_active(frames) ==> (line_step(frames, line, m).0.last().taken <==> (eval_spec(e, m) is Some
            && eval_spec(e, m) != Some(0i64))),
        !all_active(frames) ==> !line_step(frames, line, m).0.last().active,
{
    assert(line_step(frames, line, m).0.drop_last() =~= frames);
}

/// Law: `#ifdef n` in an active region is walked whether or not `n` is
/// known (an unknown macro may be defined elsewhere), and taken when it is
/// known; `#ifndef n` of a known macro is pruned.
pub proof fn lemma_ifdef_regions(frames: Seq<Frame>, line: Seq<char>, m: Map<Seq<char>, Seq<char>>, n: Seq<char>)
    requires
        all_active(frames),
    ensures
        parse_directive_spec(line) == Some(SpecDirective::Ifdef(n)) ==> line_step(frames, line, m).0.last().active
            && (line_step(frames, line, m).0.last().taken <==> m.contains_key(n)),
        parse_directive_spec(line) == Some(SpecDirective::Ifndef(n)) && m.contains_key(n) ==> !line_step(
            frames,
            line,
            m,
        ).0.last().active,
{
}

/// Law: `#else` is walked exactly when its group is in a live region and no
/// earlier branch was taken; `#endif` closes the innermost group.
pub proof fn lemma_else_endif(frames: Seq<Frame>, line: Seq<char>, m: Map<Seq<char>, Seq<char>>)
    requires
        frames.len() > 0,
    ensures
        parse_directive_spec(line) == Some(SpecDirective::Else) ==> (line_step(frames, line, m).0.last().active
            <==> (frames.last().parent_active && !frames.last().taken)),
        parse_directive_spec(line) == Some(SpecDirective::Else) ==> line_step(frames, line, m).0.drop_last()
            == frames.drop_last(),
        parse_directive_spec(line) == Some(SpecDirective::Endif) ==> line_step(frames, line, m).0
            == frames.drop_last(),
{
    if parse_directive_spec(line) == Some(SpecDirective::Else) {
        assert(line_step(frames, line, m).0.drop_last() =~= frames.drop_last());
    }
}

/// Law: an `#include` yields its event exactly in an active region.
pub proof fn lemma_include_event(
    frames: Seq<Frame>,
    line: Seq<char>,
    m: Map<Seq<char>, Seq<char>>,
    spec: Seq<char>,
    kind: IncludeKind,
    file: Seq<char>,
)
    requires
        parse_directive_spec(line) == Some(SpecDirective::Include(spec)),
        parse_include_spec(spec) == Some((kind, file)),
    ensures
        line_step(frames, line, m).0 == frames,
        line_step(frames, line, m).1 == if all_active(frames) {
            seq![SpecFileEvent::Include(kind, file)]
        } else {
            Seq::empty()
        },
{
}

//
// The walk over the include graph
//

/// A directive that is not handled, as first met: keyword, trimmed line,
/// file.
pub struct UnknownDirective {
    pub keyword: String,
    pub line: String,
    pub file: String,
}

/// What a scan found.
pub struct ScanResult {
    /// Headers that were read, normalized, each once, in the order met.
    pub headers: Vec<String>,
    /// Libraries of `#pragma comment(lib, ...)` in active regions, each once.
    pub pragma_libs: Vec<String>,
    /// Directives that are not handled, one per keyword.
    pub unknown_directives: Vec<UnknownDirective>,
}

/// File contents already read: a path, and its text when it could be read.
pub struct FileCache {
    files: Vec<(String, Option<String>)>,
}

pub open spec fn cache_lookup(s: Seq<(String, Option<String>)>, p: Seq<char>) -> Option<Option<Seq<char>>>
    decreases s.len(),
{
    if s.len() == 0 {
        None
    } else if s.last().0@ == p {
        Some(
            match s.last().1 {
                Some(t) => Some(t@),
                None => None,
            },
        )
    } else {
        cache_lookup(s.drop_last(), p)
    }
}

impl FileCache {
    pub fn new() -> (r: FileCache)
        ensures
            r.lookup(Seq::empty()) is None,
            forall|p: Seq<char>| #[trigger] r.lookup(p) is None,
    {
        FileCache { files: Vec::new() }
    }

    /// What is stored for `p`: `Some(text)` or `Some(None)` (unreadable), or
    /// `None` when `p` was never stored.
    pub closed spec fn lookup(&self, p: Seq<char>) -> Option<Option<Seq<char>>> {
        cache_lookup(self.files@, p)
    }

    pub fn get(&self, path: &str) -> (r: Option<Option<String>>)
        ensures
            match r {
                Some(Some(t)) => self.lookup(path@) == Some(Some(t@)),
                Some(None) => self.lookup(path@) == Some(None::<Seq<char>>),
                None => self.lookup(path@) is None,
            },
    {
        let mut i = self.files.len();
        assert(self.files@.take(i as int) =~= self.files@);
        while i > 0
            invariant
                i <= self.files.len(),
                cache_lookup(self.files@, path@) == cache_lookup(self.files@.take(i as int), path@),
            decreases i,
        {
            assert(self.files@.take(i as int).drop_last() =~= self.files@.take(i - 1));
            if str_eq(self.files[i - 1].0.as_str(), path) {
                return Some(
                    match &self.files[i - 1].1 {
                        Some(t) => Some(t.clone()),
                        None => None,
                    },
                );
            }
            i -= 1;
        }
        assert(self.files@.take(0) =~= Seq::<(String, Option<String>)>::empty());
        None
    }

    /// Stores the text of `path` (or that it could not be read).
    pub fn insert(&mut self, path: String, content: Option<String>)
        ensures
            final(self).lookup(path@) == Some(
                match content {
                    Some(t) => Some(t@),
                    None => None,
                },
            ),
            forall|p: Seq<char>| p != path@ ==> #[trigger] final(self).lookup(p) == old(self).lookup(p),
    {
        let ghost before = self.files@;
        self.files.push((path, content));
        assert(self.files@.drop_last() =~= before);
    }
}

/// A file being walked: its normalized path, its directory, its events and
/// how many were handled.
pub struct ScanFrame {
    pub file: String,
    pub dir: String,
    pub events: Vec<FileEvent>,
    pub pos: usize,
}

/// What the scanner waits for.
pub enum Pending {
    Idle,
    /// The text of a file (normalized path, whether it is a source).
    Read(String, bool),
    /// Whether a candidate of an include exists (candidates, index).
    Probe(Vec<String>, usize),
}

/// The state of a scan. The caller answers its requests (see
/// [`Scanner::next_request`]).
pub struct Scanner {
    pub include_dirs: Vec<String>,
    pub macros: MacroTable,
    pub sources: Vec<String>,
    pub next_source: usize,
    pub visited: Vec<String>,
    pub headers: Vec<String>,
    pub pragma_libs: Vec<String>,
    pub unknown_directives: Vec<UnknownDirective>,
    pub walk: Vec<ScanFrame>,
    pub pending: Pending,
}

/// What the scanner asks of its caller.
pub enum ScanRequest {
    /// The text of this file (`Scanner::give_content`).
    Read(String),
    /// Whether this path is a file (`Scanner::give_is_file`).
    IsFile(String),
    /// Nothing: call again.
    Busy,
    /// The scan is complete (`Scanner::result`).
    Done,
}

pub struct FrameView {
    pub file: Seq<char>,
    pub dir: Seq<char>,
    pub events: Seq<SpecFileEvent>,
    pub pos: int,
}

pub enum PendingView {
    Idle,
    Read(Seq<char>, bool),
    Probe(Seq<Seq<char>>, int),
}

pub enum RequestView {
    Read(Seq<char>),
    IsFile(Seq<char>),
    Busy,
    Done,
}

pub struct ScannerView {
    pub include_dirs: Seq<Seq<char>>,
    pub macros: Map<Seq<char>, Seq<char>>,
    pub sources: Seq<Seq<char>>,
    pub next_source: int,
    pub visited: Seq<Seq<char>>,
    pub headers: Seq<Seq<char>>,
    pub pragma_libs: Seq<Seq<char>>,
    pub unknown: Seq<(Seq<char>, Seq<char>, Seq<char>)>,
    pub walk: Seq<FrameView>,
    pub pending: PendingView,
}

impl View for ScanFrame {
    type V = FrameView;

    open spec fn view(&self) -> FrameView {
        FrameView { file: self.file@, dir: self.dir@, events: events_view(self.events@), pos: self.pos as int }
    }
}

impl View for Pending {
    type V = PendingView;

    open spec fn view(&self) -> PendingView {
        match self {
            Pending::Idle => PendingView::Idle,
            Pending::Read(p, r) => PendingView::Read(p@, *r),
            Pending::Probe(cs, i) => PendingView::Probe(seq_of_strings(cs@), *i as int),
        }
    }
}

impl View for ScanRequest {
    type V = RequestView;

    open spec fn view(&self) -> RequestView {
        match self {
            ScanRequest::Read(p) => RequestView::Read(p@),
            ScanRequest::IsFile(p) => RequestView::IsFile(p@),
            ScanRequest::Busy => RequestView::Busy,
            ScanRequest::Done => RequestView::Done,
        }
    }
}

pub open spec fn unknown_view(v: Seq<UnknownDirective>) -> Seq<(Seq<char>, Seq<char>, Seq<char>)> {
    v.map_values(|u: UnknownDirective| (u.keyword@, u.line@, u.file@))
}

pub open spec fn frames_view(v: Seq<ScanFrame>) -> Seq<FrameView> {
    v.map_values(|f: ScanFrame| f@)
}

impl View for Scanner {
    type V = ScannerView;

    open spec fn view(&self) -> ScannerView {
        ScannerView {
            include_dirs: seq_of_strings(self.include_dirs@),
            macros: self.macros@,
            sources: seq_of_strings(self.sources@),
            next_source: self.next_source as int,
            visited: seq_of_strings(self.visited@),
            headers: seq_of_strings(self.headers@),
            pragma_libs: seq_of_strings(self.pragma_libs@),
            unknown: unknown_view(self.unknown_directives@),
            walk: frames_view(self.walk@),
            pending: self.pending@,
        }
    }
}

/// A path normalized, or kept as it is when it cannot be.
pub open spec fn normalize_or(p: Seq<char>) -> Seq<char> {
    match normalize_spec(p) {
        Some(n) => n,
        None => p,
    }
}

fn normalize_path_or(p: &str) -> (r: String)
    ensures
        r@ == normalize_or(p@),
{
    match normalize_lexically(p) {
        Some(n) => n,
        None => p.to_owned(),
    }
}

pub open spec fn add_unique(list: Seq<Seq<char>>, x: Seq<char>) -> Seq<Seq<char>> {
    if list.contains(x) {
        list
    } else {
        list.push(x)
    }
}

pub open spec fn add_unknown(
    u: Seq<(Seq<char>, Seq<char>, Seq<char>)>,
    kw: Seq<char>,
    line: Seq<char>,
    file: Seq<char>,
) -> Seq<(Seq<char>, Seq<char>, Seq<char>)> {
    if exists|k: int| 0 <= k < u.len() && #[trigger] u[k].0 == kw {
        u
    } else {
        u.push((kw, line, file))
    }
}

/// Where an include may be: next to the including file (quoted includes
/// only), then in each include directory; `\` in the name read as `/`; each
/// normalized.
pub open spec fn candidates_spec(dir: Seq<char>, kind: IncludeKind, name: Seq<char>, include_dirs: Seq<Seq<char>>) -> Seq<Seq<char>> {
    let n = replace(name, seq!['\\'], seq!['/']);
    (if kind == IncludeKind::Quote {
        seq![normalize_or(join_spec(dir, n))]
    } else {
        Seq::empty()
    }) + include_dirs.map_values(|d: Seq<char>| normalize_or(join_spec(d, n)))
}

/// A file to walk: skipped when already visited; else marked visited and
/// its text requested.
pub open spec fn start_spec(s: ScannerView, path: Seq<char>, is_root: bool) -> ScannerView {
    let c = normalize_or(path);
    if s.visited.contains(c) {
        ScannerView { pending: PendingView::Idle, ..s }
    } else {
        ScannerView { visited: s.visited.push(c), pending: PendingView::Read(c, is_root), ..s }
    }
}

pub open spec fn request_of(s: ScannerView) -> RequestView {
    match s.pending {
        PendingView::Read(p, _) => RequestView::Read(p),
        _ => RequestView::Busy,
    }
}

/// One step of the scan: repeat a pending request; else handle the next
/// event of the innermost file (a library, an unknown directive, or the
/// candidates of an include), leave a finished file, or start the next
/// source.
pub open spec fn next_spec(s: ScannerView) -> (ScannerView, RequestView) {
    match s.pending {
        PendingView::Read(p, _) => (s, RequestView::Read(p)),
        PendingView::Probe(cs, i) => (s, RequestView::IsFile(cs[i])),
        PendingView::Idle => if s.walk.len() > 0 {
            let top = s.walk.last();
            if top.pos < top.events.len() {
                let s1 = ScannerView {
                    walk: s.walk.update(s.walk.len() - 1, FrameView { pos: top.pos + 1, ..top }),
                    ..s
                };
                match top.events[top.pos] {
                    SpecFileEvent::Pragma(lib) => (
                        ScannerView { pragma_libs: add_unique(s.pragma_libs, lib), ..s1 },
                        RequestView::Busy,
                    ),
                    SpecFileEvent::Unknown(kw, line) => (
                        ScannerView { unknown: add_unknown(s.unknown, kw, line, top.file), ..s1 },
                        RequestView::Busy,
                    ),
                    SpecFileEvent::Include(k, n) => {
                        let cs = candidates_spec(top.dir, k, n, s.include_dirs);
                        if cs.len() == 0 {
                            (s1, RequestView::Busy)
                        } else {
                            (ScannerView { pending: PendingView::Probe(cs, 0), ..s1 }, RequestView::IsFile(cs[0]))
                        }
                    },
                }
            } else {
                (ScannerView { walk: s.walk.drop_last(), ..s }, RequestView::Busy)
            }
        } else if s.next_source < s.sources.len() {
            let s1 = start_spec(
                ScannerView { next_source: s.next_source + 1, ..s },
                s.sources[s.next_source],
                true,
            );
            (s1, request_of(s1))
        } else {
            (s, RequestView::Done)
        },
    }
}

/// The text of the requested file arrived: an unreadable file is no longer
/// visited; a readable one becomes a header (unless it is a source) and is
/// walked. `None` when one of its conditions would negate `i64::MIN`.
pub open spec fn content_spec(s: ScannerView, c: Option<Seq<char>>) -> ScannerView {
    match s.pending {
        PendingView::Read(canon, is_root) => match c {
            None => ScannerView { visited: s.visited.drop_last(), pending: PendingView::Idle, ..s },
            Some(t) => ScannerView {
                headers: if is_root {
                    s.headers
                } else {
                    add_unique(s.headers, canon)
                },
                walk: s.walk.push(
                    FrameView {
                        file: canon,
                        dir: match parent_spec(canon) {
                            Some(d) => d,
                            None => Seq::empty(),
                        },
                        events: file_events_spec(t, s.macros).1,
                        pos: 0,
                    },
                ),
                pending: PendingView::Idle,
                ..s
            },
        },
        _ => s,
    }
}

/// Whether the probed candidate is a file arrived: the first that is gets
/// walked; when none is, the include is dropped.
pub open spec fn is_file_spec(s: ScannerView, yes: bool) -> ScannerView {
    match s.pending {
        PendingView::Probe(cs, i) => if yes {
            start_spec(s, cs[i], false)
        } else if i + 1 < cs.len() {
            ScannerView { pending: PendingView::Probe(cs, i + 1), ..s }
        } else {
            ScannerView { pending: PendingView::Idle, ..s }
        },
        _ => s,
    }
}

/// The state a scan keeps: headers, libraries and unknown keywords each
/// once; a pending read is of the last visited file; a pending probe points
/// at a candidate; frames do not run past their events.
pub open spec fn scan_wf(s: ScannerView) -> bool {
    &&& s.headers.no_duplicates()
    &&& s.pragma_libs.no_duplicates()
    &&& forall|i: int, j: int| 0 <= i < j < s.unknown.len() ==> #[trigger] s.unknown[i].0 != #[trigger] s.unknown[j].0
    &&& 0 <= s.next_source <= s.sources.len()
    &&& (s.pending matches PendingView::Read(c, _) ==> s.visited.len() > 0 && s.visited.last() == c)
    &&& (s.pending matches PendingView::Probe(cs, i) ==> 0 <= i < cs.len())
    &&& forall|k: int| 0 <= k < s.walk.len() ==> 0 <= #[trigger] s.walk[k].pos <= s.walk[k].events.len()
}

/// The macros of a scan: `_WIN32` and `_MSC_VER` of the compiler, then each
/// non-empty definition, `NAME` as `1` and `NAME=VALUE` (both trimmed).
pub open spec fn macros_spec(defines: Seq<Seq<char>>) -> Map<Seq<char>, Seq<char>>
    decreases defines.len(),
{
    if defines.len() == 0 {
        Map::empty().insert("_WIN32"@, "1"@).insert("_MSC_VER"@, "1500"@)
    } else {
        let m = macros_spec(defines.drop_last());
        let d = trim(defines.last());
        if d.len() == 0 {
            m
        } else {
            match crate::text::find_char(d, '=') {
                Some(k) => m.insert(trim(d.take(k)), trim(d.skip(k + 1))),
                None => m.insert(d, "1"@),
            }
        }
    }
}

pub fn build_macros(defines: &Vec<String>) -> (r: MacroTable)
    ensures
        r@ == macros_spec(seq_of_strings(defines@)),
{
    let mut macros = MacroTable::new();
    macros.insert("_WIN32".to_owned(), "1".to_owned());
    macros.insert("_MSC_VER".to_owned(), "1500".to_owned());
    let ghost ds = seq_of_strings(defines@);
    let mut i: usize = 0;
    assert(ds.take(0) =~= Seq::<Seq<char>>::empty());
    while i < defines.len()
        invariant
            i <= defines.len(),
            ds == seq_of_strings(defines@),
            macros@ == macros_spec(ds.take(i as int)),
        decreases defines.len() - i,
    {
        assert(ds.take(i + 1).drop_last() =~= ds.take(i as int));
        assert(ds.take(i + 1).last() == defines@[i as int]@);
        let d = trim_str(defines[i].as_str());
        let v = crate::text::chars_of(d.as_str());
        if v.len() > 0 {
            proof {
                crate::text::lemma_find_char_bounds(v@, '=');
            }
            let mut k: usize = 0;
            while k < v.len() && v[k] != '='
                invariant
                    k <= v.len(),
                    forall|j: int| 0 <= j < k ==> v@[j] != '=',
                decreases v.len() - k,
            {
                k += 1;
            }
            if k < v.len() {
                assert(crate::text::find_char(v@, '=') == Some(k as int)) by {
                    crate::text::lemma_find_char_bounds(v@, '=');
                }
                let name = crate::text::string_of_range(&v, 0, k);
                let value = crate::text::string_of_range(&v, k + 1, v.len());
                assert(v@.subrange(0, k as int) =~= v@.take(k as int));
                assert(v@.subrange(k + 1, v.len() as int) =~= v@.skip(k + 1));
                macros.insert(trim_str(name.as_str()), trim_str(value.as_str()));
            } else {
                assert(crate::text::find_char(v@, '=') is None) by {
                    crate::text::lemma_find_char_bounds(v@, '=');
                }
                macros.insert(d, "1".to_owned());
            }
        }
        i += 1;
    }
    assert(ds.take(defines.len() as int) =~= ds);
    macros
}

/// The initial state of a scan of `sources` with the include directories
/// `include_dirs` and the `/D` definitions `defines`.
pub fn scan_translation_units(sources: &Vec<String>, include_dirs: &Vec<String>, defines: &Vec<String>) -> (r: Scanner)
    ensures
        scan_wf(r@),
        r@.sources == seq_of_strings(sources@),
        r@.include_dirs == seq_of_strings(include_dirs@),
        r@.macros == macros_spec(seq_of_strings(defines@)),
        r@.next_source == 0,
        r@.visited.len() == 0,
        r@.headers.len() == 0,
        r@.pragma_libs.len() == 0,
        r@.unknown.len() == 0,
        r@.walk.len() == 0,
        r@.pending == PendingView::Idle,
{
    let r = Scanner {
        include_dirs: crate::text::clone_strings(include_dirs),
        macros: build_macros(defines),
        sources: crate::text::clone_strings(sources),
        next_source: 0,
        visited: Vec::new(),
        headers: Vec::new(),
        pragma_libs: Vec::new(),
        unknown_directives: Vec::new(),
        walk: Vec::new(),
        pending: Pending::Idle,
    };
    assert(r@.headers =~= Seq::<Seq<char>>::empty());
    assert(r@.pragma_libs =~= Seq::<Seq<char>>::empty());
    r
}


fn contains_str(v: &Vec<String>, x: &String) -> (r: bool)
    ensures
        r == seq_of_strings(v@).contains(x@),
{
    let mut i: usize = 0;
    while i < v.len()
        invariant
            i <= v.len(),
            forall|k: int| 0 <= k < i ==> v@[k]@ != x@,
        decreases v.len() - i,
    {
        if str_eq(v[i].as_str(), x.as_str()) {
            assert(seq_of_strings(v@)[i as int] == x@);
            return true;
        }
        i += 1;
    }
    assert forall|k: int| 0 <= k < seq_of_strings(v@).len() implies seq_of_strings(v@)[k] != x@ by {
        assert(seq_of_strings(v@)[k] == v@[k]@);
    }
    false
}

fn has_keyword(v: &Vec<UnknownDirective>, kw: &String) -> (r: bool)
    ensures
        r == exists|k: int| 0 <= k < unknown_view(v@).len() && #[trigger] unknown_view(v@)[k].0 == kw@,
{
    let mut i: usize = 0;
    while i < v.len()
        invariant
            i <= v.len(),
            forall|k: int| 0 <= k < i ==> v@[k].keyword@ != kw@,
        decreases v.len() - i,
    {
        if str_eq(v[i].keyword.as_str(), kw.as_str()) {
            assert(unknown_view(v@)[i as int].0 == kw@);
            return true;
        }
        i += 1;
    }
    assert forall|k: int| 0 <= k < unknown_view(v@).len() implies #[trigger] unknown_view(v@)[k].0 != kw@ by {
        assert(unknown_view(v@)[k].0 == v@[k].keyword@);
    }
    false
}

fn candidates(dir: &String, kind: IncludeKind, name: &String, include_dirs: &Vec<String>) -> (r: Vec<String>)
    ensures
        seq_of_strings(r@) == candidates_spec(dir@, kind, name@, seq_of_strings(include_dirs@)),
{
    proof {
        reveal_strlit("\\");
        reveal_strlit("/");
        assert("\\"@ =~= seq!['\\']);
        assert("/"@ =~= seq!['/']);
    }
    let n = replace_str(name.as_str(), "\\", "/");
    let mut r: Vec<String> = Vec::new();
    if kind == IncludeKind::Quote {
        let j = join_path(dir.as_str(), n.as_str());
        r.push(normalize_path_or(j.as_str()));
    }
    let ghost head = seq_of_strings(r@);
    let ghost ds = seq_of_strings(include_dirs@);
    let ghost f = |d: Seq<char>| normalize_or(join_spec(d, n@));
    let mut i: usize = 0;
    while i < include_dirs.len()
        invariant
            i <= include_dirs.len(),
            ds == seq_of_strings(include_dirs@),
            f == (|d: Seq<char>| normalize_or(join_spec(d, n@))),
            seq_of_strings(r@) == head + ds.take(i as int).map_values(f),
        decreases include_dirs.len() - i,
    {
        let j = join_path(include_dirs[i].as_str(), n.as_str());
        let c = normalize_path_or(j.as_str());
        let ghost before = seq_of_strings(r@);
        r.push(c);
        assert(seq_of_strings(r@) =~= before.push(c@));
        assert(ds.take(i + 1).map_values(f) =~= ds.take(i as int).map_values(f).push(f(ds[i as int])));
        i += 1;
    }
    assert(ds.take(include_dirs.len() as int) =~= ds);
    assert(seq_of_strings(r@) =~= candidates_spec(dir@, kind, name@, ds));
    r
}

impl Scanner {
    fn start(&mut self, path: &str, is_root: bool)
        requires
            scan_wf(old(self)@),
        ensures
            final(self)@ == start_spec(old(self)@, path@, is_root),
            scan_wf(final(self)@),
    {
        let c = normalize_path_or(path);
        if contains_str(&self.visited, &c) {
            self.pending = Pending::Idle;
        } else {
            let ghost before = seq_of_strings(self.visited@);
            self.visited.push(c.clone());
            assert(seq_of_strings(self.visited@) =~= before.push(c@));
            self.pending = Pending::Read(c, is_root);
        }
    }

    /// The next request of the scan (see [`next_spec`]).
    pub fn next_request(&mut self) -> (r: ScanRequest)
        requires
            scan_wf(old(self)@),
        ensures
            scan_wf(final(self)@),
            (final(self)@, r@) == next_spec(old(self)@),
    {
        match &self.pending {
            Pending::Read(p, _) => {
                return ScanRequest::Read(p.clone());
            },
            Pending::Probe(cs, i) => {
                assert(seq_of_strings(cs@)[*i as int] == cs@[*i as int]@);
                return ScanRequest::IsFile(cs[*i].clone());
            },
            Pending::Idle => {},
        }
        let ghost s = self@;
        if self.walk.len() > 0 {
            let ghost fr = frames_view(self.walk@);
            let mut top = match self.walk.pop() {
                Some(t) => t,
                None => {
                    return ScanRequest::Busy;
                },
            };
            assert(fr.last() == top@);
            assert(frames_view(self.walk@) =~= fr.drop_last());
            if top.pos < top.events.len() {
                let pos = top.pos;
                assert(events_view(top.events@)[pos as int] == top.events@[pos as int]@);
                let mut req = ScanRequest::Busy;
                match &top.events[pos] {
                    FileEvent::Pragma(lib) => {
                        if !contains_str(&self.pragma_libs, lib) {
                            let ghost before = seq_of_strings(self.pragma_libs@);
                            self.pragma_libs.push(lib.clone());
                            assert(seq_of_strings(self.pragma_libs@) =~= before.push(lib@));
                        }
                    },
                    FileEvent::Unknown(kw, line) => {
                        if !has_keyword(&self.unknown_directives, kw) {
                            let ghost before = unknown_view(self.unknown_directives@);
                            self.unknown_directives.push(UnknownDirective { keyword: kw.clone(), line: line.clone(), file: top.file.clone() });
                            assert(unknown_view(self.unknown_directives@) =~= before.push((kw@, line@, top.file@)));
                        }
                    },
                    FileEvent::Include(kind, name) => {
                        let cs = candidates(&top.dir, *kind, name, &self.include_dirs);
                        if cs.len() > 0 {
                            assert(seq_of_strings(cs@)[0] == cs@[0]@);
                            req = ScanRequest::IsFile(cs[0].clone());
                            self.pending = Pending::Probe(cs, 0);
                        }
                    },
                }
                top.pos = pos + 1;
                let ghost tv = top@;
                self.walk.push(top);
                assert(frames_view(self.walk@) =~= fr.update(fr.len() - 1, tv));
                return req;
            } else {
                return ScanRequest::Busy;
            }
        }
        if self.next_source < self.sources.len() {
            let k = self.next_source;
            self.next_source = k + 1;
            assert(seq_of_strings(self.sources@)[k as int] == self.sources@[k as int]@);
            let src = self.sources[k].clone();
            self.start(src.as_str(), true);
            match &self.pending {
                Pending::Read(p, _) => ScanRequest::Read(p.clone()),
                _ => ScanRequest::Busy,
            }
        } else {
            ScanRequest::Done
        }
    }

    /// The text of the file of a `Read` request (`None`: unreadable).
    pub fn give_content(&mut self, content: Option<String>)
        requires
            scan_wf(old(self)@),
        ensures
            scan_wf(final(self)@),
            final(self)@ == content_spec(old(self)@, opt_string_view(content)),
    {
        let (canon, is_root) = match &self.pending {
            Pending::Read(c, r) => (c.clone(), *r),
            _ => {
                return;
            },
        };
        match content {
            None => {
                let ghost before = seq_of_strings(self.visited@);
                self.visited.pop();
                assert(seq_of_strings(self.visited@) =~= before.drop_last());
                self.pending = Pending::Idle;
            },
            Some(text) => {
                let events = file_events(text.as_str(), &self.macros);
                if !is_root && !contains_str(&self.headers, &canon) {
                    let ghost before = seq_of_strings(self.headers@);
                    self.headers.push(canon.clone());
                    assert(seq_of_strings(self.headers@) =~= before.push(canon@));
                }
                let dir = match parent(canon.as_str()) {
                    Some(d) => d,
                    None => String::new(),
                };
                let ghost before = frames_view(self.walk@);
                let frame = ScanFrame { file: canon, dir, events, pos: 0 };
                let ghost fv = frame@;
                self.walk.push(frame);
                assert(frames_view(self.walk@) =~= before.push(fv));
                self.pending = Pending::Idle;
            },
        }
    }

    /// Whether the candidate of an `IsFile` request is a file.
    pub fn give_is_file(&mut self, yes: bool)
        requires
            scan_wf(old(self)@),
        ensures
            scan_wf(final(self)@),
            final(self)@ == is_file_spec(old(self)@, yes),
    {
        let (cs, i) = match &self.pending {
            Pending::Probe(cs, i) => (crate::text::clone_strings(cs), *i),
            _ => {
                return;
            },
        };
        assert(i < seq_of_strings(cs@).len());
        assert(seq_of_strings(cs@).len() == cs@.len());
        assert(i < cs.len());
        if yes {
            assert(seq_of_strings(cs@)[i as int] == cs@[i as int]@);
            let c = cs[i].clone();
            self.start(c.as_str(), false);
        } else if i + 1 < cs.len() {
            self.pending = Pending::Probe(cs, i + 1);
        } else {
            self.pending = Pending::Idle;
        }
    }

    /// What the scan found so far.
    pub fn result(&self) -> (r: ScanResult)
        ensures
            seq_of_strings(r.headers@) == self@.headers,
            seq_of_strings(r.pragma_libs@) == self@.pragma_libs,
            unknown_view(r.unknown_directives@) == self@.unknown,
    {
        let mut unknown: Vec<UnknownDirective> = Vec::new();
        let mut i: usize = 0;
        while i < self.unknown_directives.len()
            invariant
                i <= self.unknown_directives.len(),
                unknown_view(unknown@) == unknown_view(self.unknown_directives@).take(i as int),
            decreases self.unknown_directives.len() - i,
        {
            let u = &self.unknown_directives[i];
            let ghost before = unknown_view(unknown@);
            unknown.push(UnknownDirective { keyword: u.keyword.clone(), line: u.line.clone(), file: u.file.clone() });
            assert(unknown_view(unknown@) =~= before.push((u.keyword@, u.line@, u.file@)));
            assert(unknown_view(self.unknown_directives@).take(i + 1) =~= unknown_view(self.unknown_directives@).take(i as int).push(unknown_view(self.unknown_directives@)[i as int]));
            i += 1;
        }
        assert(unknown_view(self.unknown_directives@).take(self.unknown_directives.len() as int) =~= unknown_view(self.unknown_directives@));
        ScanResult {
            headers: crate::text::clone_strings(&self.headers),
            pragma_libs: crate::text::clone_strings(&self.pragma_libs),
            unknown_directives: unknown,
        }
    }
}

pub open spec fn opt_string_view(o: Option<String>) -> Option<Seq<char>> {
    match o {
        Some(s) => Some(s@),
        None => None,
    }
}

} // verus!
