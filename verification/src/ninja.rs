//! Writing one project's build graph in ninja syntax.
use vstd::prelude::*;
use crate::flags::{ClGroup, Flags, SpecClGroup, SpecFlags, rsp_content_spec};
use crate::paths::{normalize_path, normalize_rpath};
use crate::text::{
    concat_all, lemma_concat_all_push, opt_view, chars_of, dec, ends_with, str_eq, push_char, push_str, replace, replace_str, seq_of_strings,
    string_of, usize_to_string,
};
use crate::winpath::{
    ascii_upper, extension, extension_spec, file_stem, file_stem_spec, join_path, join_spec,
    normalize_lexically, normalize_spec, parent, parent_spec, upper,
};

verus! {

/// `char::is_alphanumeric` (Unicode `Alphabetic` or `Numeric`).
pub uninterp spec fn char_is_alphanumeric(c: char) -> bool;

/// `char::is_alphanumeric`. Its result is named by [`char_is_alphanumeric`];
/// for ASCII it holds exactly of letters and digits.
#[verifier::external_body]
pub(crate) fn is_alphanumeric(c: char) -> (r: bool)
    ensures
        r == char_is_alphanumeric(c),
        c <= '\u{7f}' ==> (r <==> crate::text::is_ascii_alnum(c)),
{
    c.is_alphanumeric()
}

/// Escapes `$`, space and `:` for a ninja build line.
pub open spec fn ninja_escape_spec(p: Seq<char>) -> Seq<char> {
    replace(
        replace(replace(p, seq!['$'], seq!['$', '$']), seq![' '], seq!['$', ' ']),
        seq![':'],
        seq!['$', ':'],
    )
}

pub fn ninja_escape(path: &str) -> (r: String)
    ensures
        r@ == ninja_escape_spec(path@),
{
    proof {
        reveal_strlit("$");
        reveal_strlit("$$");
        reveal_strlit(" ");
        reveal_strlit("$ ");
        reveal_strlit(":");
        reveal_strlit("$:");
        assert("$"@ =~= seq!['$']);
        assert("$$"@ =~= seq!['$', '$']);
        assert(" "@ =~= seq![' ']);
        assert("$ "@ =~= seq!['$', ' ']);
        assert(":"@ =~= seq![':']);
        assert("$:"@ =~= seq!['$', ':']);
    }
    let a = replace_str(path, "$", "$$");
    let b = replace_str(a.as_str(), " ", "$ ");
    replace_str(b.as_str(), ":", "$:")
}

/// A ninja build statement before escaping.
pub struct NinjaBuildStatement {
    pub outputs: Vec<String>,
    pub implicit_outputs: Vec<String>,
    pub rule: String,
    pub inputs: Vec<String>,
    /// Implicit inputs (`|`): they trigger rebuilds without being arguments.
    pub implicit_inputs: Vec<String>,
    pub order_only_deps: Vec<String>,
    /// The `flags = ...` binding, if any.
    pub flags: Option<String>,
    /// The pool; steps of a pool with `depth = 1` never run in parallel.
    pub pool: Option<String>,
}

/// Mathematical view of a build statement.
pub struct SpecStmt {
    pub outputs: Seq<Seq<char>>,
    pub implicit_outputs: Seq<Seq<char>>,
    pub rule: Seq<char>,
    pub inputs: Seq<Seq<char>>,
    pub implicit_inputs: Seq<Seq<char>>,
    pub order_only_deps: Seq<Seq<char>>,
    pub flags: Option<Seq<char>>,
    pub pool: Option<Seq<char>>,
}

impl View for NinjaBuildStatement {
    type V = SpecStmt;

    open spec fn view(&self) -> SpecStmt {
        SpecStmt {
            outputs: seq_of_strings(self.outputs@),
            implicit_outputs: seq_of_strings(self.implicit_outputs@),
            rule: self.rule@,
            inputs: seq_of_strings(self.inputs@),
            implicit_inputs: seq_of_strings(self.implicit_inputs@),
            order_only_deps: seq_of_strings(self.order_only_deps@),
            flags: opt_view(self.flags),
            pool: opt_view(self.pool),
        }
    }
}

pub open spec fn output_line(o: Seq<char>) -> Seq<char> {
    "    "@ + ninja_escape_spec(o) + " $\n"@
}

pub open spec fn implicit_output_line(i: int, o: Seq<char>) -> Seq<char> {
    (if i == 0 {
        "    | "@
    } else {
        "      "@
    }) + ninja_escape_spec(o) + " $\n"@
}

pub open spec fn input_line(x: Seq<char>, continued: bool) -> Seq<char> {
    "    "@ + ninja_escape_spec(x) + if continued {
        " $\n"@
    } else {
        "\n"@
    }
}

pub open spec fn implicit_input_line(i: int, x: Seq<char>, continued: bool) -> Seq<char> {
    (if i == 0 {
        "    | "@
    } else {
        "      "@
    }) + ninja_escape_spec(x) + if continued {
        " $\n"@
    } else {
        "\n"@
    }
}

pub open spec fn output_lines(xs: Seq<Seq<char>>) -> Seq<char> {
    concat_all(xs.map_values(|o: Seq<char>| output_line(o)))
}

pub open spec fn implicit_output_lines(xs: Seq<Seq<char>>) -> Seq<char> {
    concat_all(xs.map(|i: int, o: Seq<char>| implicit_output_line(i, o)))
}

/// Explicit input lines; every line but the last is continued, and the last
/// too when `more` follows.
pub open spec fn input_lines(xs: Seq<Seq<char>>, more: bool) -> Seq<char> {
    concat_all(xs.map(|i: int, x: Seq<char>| input_line(x, i < last_index(xs.len()) || more)))
}

pub open spec fn implicit_input_lines(xs: Seq<Seq<char>>, more: bool) -> Seq<char> {
    concat_all(
        xs.map(|i: int, x: Seq<char>| implicit_input_line(i, x, i < last_index(xs.len()) || more)),
    )
}

pub open spec fn order_only_items(xs: Seq<Seq<char>>) -> Seq<char> {
    concat_all(xs.map_values(|d: Seq<char>| " "@ + ninja_escape_spec(d)))
}

pub open spec fn last_index(n: nat) -> int {
    if n > 0 {
        n - 1
    } else {
        0
    }
}

/// The text of a build statement: nothing without outputs; otherwise the
/// outputs, implicit outputs after `|`, the rule, explicit inputs, implicit
/// inputs after `|`, order-only inputs after `||` (lines continued with `$`),
/// then the `flags` and `pool` bindings and an empty line.
pub open spec fn render_stmt(s: SpecStmt) -> Seq<char> {
    if s.outputs.len() == 0 {
        Seq::empty()
    } else {
        "build $\n"@ + output_lines(s.outputs) + implicit_output_lines(s.implicit_outputs)
            + stmt_body(s) + binding_line("flags"@, s.flags) + binding_line("pool"@, s.pool)
            + "\n"@
    }
}

fn push_output_lines(out: &mut String, xs: &Vec<String>)
    ensures
        final(out)@ == old(out)@ + output_lines(seq_of_strings(xs@)),
{
    let ghost lines = seq_of_strings(xs@).map_values(|o: Seq<char>| output_line(o));
    let ghost base = out@;
    let mut i: usize = 0;
    while i < xs.len()
        invariant
            i <= xs.len(),
            lines == seq_of_strings(xs@).map_values(|o: Seq<char>| output_line(o)),
            out@ == base + concat_all(lines.take(i as int)),
        decreases xs.len() - i,
    {
        let e = ninja_escape(xs[i].as_str());
        push_str(out, "    ");
        push_str(out, e.as_str());
        push_str(out, " $\n");
        proof {
            assert(lines.take(i + 1) =~= lines.take(i as int).push(lines[i as int]));
            lemma_concat_all_push(lines.take(i as int), lines[i as int]);
        }
        i += 1;
    }
    assert(lines.take(xs.len() as int) =~= lines);
}

fn push_implicit_output_lines(out: &mut String, xs: &Vec<String>)
    ensures
        final(out)@ == old(out)@ + implicit_output_lines(seq_of_strings(xs@)),
{
    let ghost lines = seq_of_strings(xs@).map(|i: int, o: Seq<char>| implicit_output_line(i, o));
    let ghost base = out@;
    let mut i: usize = 0;
    while i < xs.len()
        invariant
            i <= xs.len(),
            lines == seq_of_strings(xs@).map(|i: int, o: Seq<char>| implicit_output_line(i, o)),
            out@ == base + concat_all(lines.take(i as int)),
        decreases xs.len() - i,
    {
        let e = ninja_escape(xs[i].as_str());
        if i == 0 {
            push_str(out, "    | ");
        } else {
            push_str(out, "      ");
        }
        push_str(out, e.as_str());
        push_str(out, " $\n");
        proof {
            assert(lines.take(i + 1) =~= lines.take(i as int).push(lines[i as int]));
            lemma_concat_all_push(lines.take(i as int), lines[i as int]);
        }
        i += 1;
    }
    assert(lines.take(xs.len() as int) =~= lines);
}

fn push_input_lines(out: &mut String, xs: &Vec<String>, more: bool)
    ensures
        final(out)@ == old(out)@ + input_lines(seq_of_strings(xs@), more),
{
    let ghost lines = seq_of_strings(xs@).map(
        |i: int, x: Seq<char>| input_line(x, i < last_index(seq_of_strings(xs@).len()) || more),
    );
    let ghost base = out@;
    let last = if xs.len() > 0 {
        xs.len() - 1
    } else {
        0
    };
    let mut i: usize = 0;
    while i < xs.len()
        invariant
            i <= xs.len(),
            last == last_index(seq_of_strings(xs@).len()),
            lines == seq_of_strings(xs@).map(
                |i: int, x: Seq<char>| input_line(x, i < last_index(seq_of_strings(xs@).len()) || more),
            ),
            out@ == base + concat_all(lines.take(i as int)),
        decreases xs.len() - i,
    {
        let e = ninja_escape(xs[i].as_str());
        push_str(out, "    ");
        push_str(out, e.as_str());
        if i < last || more {
            push_str(out, " $\n");
        } else {
            push_str(out, "\n");
        }
        proof {
            assert(lines.take(i + 1) =~= lines.take(i as int).push(lines[i as int]));
            lemma_concat_all_push(lines.take(i as int), lines[i as int]);
        }
        i += 1;
    }
    assert(lines.take(xs.len() as int) =~= lines);
}

#[verifier::rlimit(40)]
fn push_implicit_input_lines(out: &mut String, xs: &Vec<String>, more: bool)
    ensures
        final(out)@ == old(out)@ + implicit_input_lines(seq_of_strings(xs@), more),
{
    let ghost lines = seq_of_strings(xs@).map(
        |i: int, x: Seq<char>| implicit_input_line(i, x, i < last_index(seq_of_strings(xs@).len()) || more),
    );
    let ghost base = out@;
    let last = if xs.len() > 0 {
        xs.len() - 1
    } else {
        0
    };
    let mut i: usize = 0;
    while i < xs.len()
        invariant
            i <= xs.len(),
            last == last_index(seq_of_strings(xs@).len()),
            lines == seq_of_strings(xs@).map(
                |i: int, x: Seq<char>| implicit_input_line(i, x, i < last_index(seq_of_strings(xs@).len()) || more),
            ),
            out@ == base + concat_all(lines.take(i as int)),
        decreases xs.len() - i,
    {
        let e = ninja_escape(xs[i].as_str());
        if i == 0 {
            push_str(out, "    | ");
        } else {
            push_str(out, "      ");
        }
        push_str(out, e.as_str());
        if i < last || more {
            push_str(out, " $\n");
        } else {
            push_str(out, "\n");
        }
        proof {
            assert(lines.take(i + 1) =~= lines.take(i as int).push(lines[i as int]));
            lemma_concat_all_push(lines.take(i as int), lines[i as int]);
        }
        i += 1;
    }
    assert(lines.take(xs.len() as int) =~= lines);
}

fn push_order_only(out: &mut String, xs: &Vec<String>)
    ensures
        final(out)@ == old(out)@ + order_only_items(seq_of_strings(xs@)),
{
    let ghost lines = seq_of_strings(xs@).map_values(|d: Seq<char>| " "@ + ninja_escape_spec(d));
    let ghost base = out@;
    let mut i: usize = 0;
    while i < xs.len()
        invariant
            i <= xs.len(),
            lines == seq_of_strings(xs@).map_values(|d: Seq<char>| " "@ + ninja_escape_spec(d)),
            out@ == base + concat_all(lines.take(i as int)),
        decreases xs.len() - i,
    {
        let e = ninja_escape(xs[i].as_str());
        push_str(out, " ");
        push_str(out, e.as_str());
        proof {
            assert(lines.take(i + 1) =~= lines.take(i as int).push(lines[i as int]));
            lemma_concat_all_push(lines.take(i as int), lines[i as int]);
        }
        i += 1;
    }
    assert(lines.take(xs.len() as int) =~= lines);
}

/// A `  key = value` binding line, when the value is present.
pub open spec fn binding_line(key: Seq<char>, v: Option<Seq<char>>) -> Seq<char> {
    match v {
        Some(x) => "  "@ + key + " = "@ + x + "\n"@,
        None => Seq::empty(),
    }
}

fn push_binding(out: &mut String, key: &str, v: &Option<String>)
    ensures
        final(out)@ == old(out)@ + binding_line(key@, opt_view(*v)),
{
    let ghost base = out@;
    match v {
        Some(x) => {
            push_str(out, "  ");
            push_str(out, key);
            push_str(out, " = ");
            push_str(out, x.as_str());
            push_str(out, "\n");
            assert(out@ =~= base + binding_line(key@, opt_view(*v)));
        },
        None => {
            assert(out@ =~= base + binding_line(key@, opt_view(*v)));
        },
    }
}

/// The rule line and the input lines of a statement with outputs.
pub open spec fn stmt_body(s: SpecStmt) -> Seq<char> {
    let has_imp = s.implicit_inputs.len() > 0;
    let has_oo = s.order_only_deps.len() > 0;
    if s.inputs.len() > 0 || has_imp || has_oo {
        "    : "@ + s.rule + " $\n"@ + input_lines(s.inputs, has_imp || has_oo)
            + implicit_input_lines(s.implicit_inputs, has_oo) + if has_oo {
            "    ||"@ + order_only_items(s.order_only_deps) + "\n"@
        } else {
            Seq::empty()
        }
    } else {
        "    : "@ + s.rule + "\n"@
    }
}


/// The path written for a file of the graph: `p` joined to `base`, normalized.
pub open spec fn norm_rel(base: Seq<char>, p: Seq<char>) -> Seq<char> {
    normalize_spec(join_spec(base, p))->0
}

/// A path normalized on its own.
pub open spec fn norm_abs(p: Seq<char>) -> Seq<char> {
    norm_rel(Seq::empty(), p)
}

pub open spec fn normalizable(base: Seq<char>, p: Seq<char>) -> bool {
    normalize_spec(join_spec(base, p)) is Some
}

/// An object directory or file ending in `.obj` (any case).
pub open spec fn is_obj_ext(e: Seq<char>) -> bool {
    e.len() == 3 && ascii_upper(e[0]) == 'O' && ascii_upper(e[1]) == 'B' && ascii_upper(e[2]) == 'J'
}

pub open spec fn names_obj_file(output_file: Seq<char>) -> bool {
    extension_spec(output_file) matches Some(e) && is_obj_ext(e)
}

/// The object file of `src`: `output_file` itself when it names an `.obj`,
/// else the source's stem with `.obj` in the directory `output_file`.
pub open spec fn compute_obj_spec(output_file: Seq<char>, src: Seq<char>) -> Seq<char> {
    if names_obj_file(output_file) {
        output_file
    } else {
        let sep = if output_file.len() > 0 && (output_file.last() == '\\' || output_file.last()
            == '/') {
            Seq::empty()
        } else {
            seq!['\\']
        };
        output_file + sep + file_stem_spec(src)->0 + seq!['.', 'o', 'b', 'j']
    }
}

pub open spec fn obj_computable(output_file: Seq<char>, src: Seq<char>) -> bool {
    !names_obj_file(output_file) ==> file_stem_spec(src) is Some
}

fn is_obj_str(e: &String) -> (r: bool)
    ensures
        r == is_obj_ext(e@),
{
    let v = chars_of(e.as_str());
    v.len() == 3 && upper(v[0]) == 'O' && upper(v[1]) == 'B' && upper(v[2]) == 'J'
}

fn compute_obj(output_file: &str, src: &str) -> (r: String)
    requires
        obj_computable(output_file@, src@),
    ensures
        r@ == compute_obj_spec(output_file@, src@),
{
    let obj = match extension(output_file) {
        Some(e) => is_obj_str(&e),
        None => false,
    };
    if obj {
        return output_file.to_owned();
    }
    let mut r = output_file.to_owned();
    let v = chars_of(output_file);
    if !(v.len() > 0 && (v[v.len() - 1] == '\\' || v[v.len() - 1] == '/')) {
        push_char(&mut r, '\\');
    }
    match file_stem(src) {
        Some(stem) => push_str(&mut r, stem.as_str()),
        None => {},
    }
    proof {
        reveal_strlit(".obj");
        assert(".obj"@ =~= seq!['.', 'o', 'b', 'j']);
    }
    push_str(&mut r, ".obj");
    assert(r@ =~= compute_obj_spec(output_file@, src@));
    r
}

/// The pool of a `/Fd` path: every character that is not alphanumeric
/// becomes `_`.
pub open spec fn fd_pool_name_spec(fd: Seq<char>) -> Seq<char> {
    fd.map_values(|c: char| if char_is_alphanumeric(c) { c } else { '_' })
}

fn fd_pool_name(fd_path: &str) -> (r: String)
    ensures
        r@ == fd_pool_name_spec(fd_path@),
{
    let v = chars_of(fd_path);
    let mut out: Vec<char> = Vec::new();
    let mut i: usize = 0;
    while i < v.len()
        invariant
            i <= v.len(),
            v@ == fd_path@,
            out@ == fd_pool_name_spec(v@.take(i as int)),
        decreases v.len() - i,
    {
        let c = v[i];
        if is_alphanumeric(c) {
            out.push(c);
        } else {
            out.push('_');
        }
        assert(out@ =~= fd_pool_name_spec(v@.take(i + 1)));
        i += 1;
    }
    assert(v@.take(v.len() as int) =~= v@);
    string_of(&out)
}

/// The rules that every project file declares.
pub open spec fn rules_text() -> Seq<char> {
    "\nrule cl\n  command = cmd /c cd \"$proj_dir\" && cl $flags\n\nrule lib\n  command = cmd /c cd \"$proj_dir\" && lib $flags\n\nrule link\n  command = cmd /c cd \"$proj_dir\" && link $flags\n\n"@
        + "\n"@
}

fn write_rules(out: &mut String)
    ensures
        final(out)@ == old(out)@ + rules_text(),
{
    push_str(
        out,
        "\nrule cl\n  command = cmd /c cd \"$proj_dir\" && cl $flags\n\nrule lib\n  command = cmd /c cd \"$proj_dir\" && lib $flags\n\nrule link\n  command = cmd /c cd \"$proj_dir\" && link $flags\n\n",
    );
    push_str(out, "\n");
}

/// Every path of `xs`, joined to `base` and normalized.
fn normalize_all(base: &str, xs: &Vec<String>) -> (r: Vec<String>)
    requires
        forall|k: int| 0 <= k < xs@.len() ==> normalizable(base@, #[trigger] xs@[k]@),
    ensures
        seq_of_strings(r@) == seq_of_strings(xs@).map_values(|x: Seq<char>| norm_rel(base@, x)),
{
    let mut r: Vec<String> = Vec::new();
    let mut i: usize = 0;
    while i < xs.len()
        invariant
            i <= xs.len(),
            forall|k: int| 0 <= k < xs@.len() ==> normalizable(base@, #[trigger] xs@[k]@),
            seq_of_strings(r@) == seq_of_strings(xs@.take(i as int)).map_values(
                |x: Seq<char>| norm_rel(base@, x),
            ),
        decreases xs.len() - i,
    {
        let n = normalize_rpath(base, xs[i].as_str());
        assert(n@ == norm_rel(base@, xs@[i as int]@));
        let ghost before = seq_of_strings(r@);
        r.push(n);
        assert(seq_of_strings(r@) =~= before.push(n@));
        assert(seq_of_strings(xs@.take(i + 1)) =~= seq_of_strings(xs@.take(i as int)).push(
            xs@[i as int]@,
        ));
        assert(seq_of_strings(r@) =~= seq_of_strings(xs@.take(i + 1)).map_values(
            |x: Seq<char>| norm_rel(base@, x),
        ));
        i += 1;
    }
    assert(xs@.take(xs.len() as int) =~= xs@);
    r
}

/// `$(RspFile)` of a command line replaced by the response file's path.
pub open spec fn with_rsp(flags: Seq<char>, rsp: Seq<char>) -> Seq<char> {
    replace(flags, "$(RspFile)"@, rsp)
}

fn interpolate_rsp(flags: &String, rsp_path: &str) -> (r: String)
    ensures
        r@ == with_rsp(flags@, rsp_path@),
{
    proof {
        reveal_strlit("$(RspFile)");
    }
    replace_str(flags.as_str(), "$(RspFile)", rsp_path)
}

/// The link or lib statement of a project.
pub open spec fn final_stmt_spec(
    rule: Seq<char>,
    f: SpecFlags,
    rsp: Seq<char>,
    proj_dir: Seq<char>,
    deps: Seq<Seq<char>>,
) -> SpecStmt {
    SpecStmt {
        outputs: seq![norm_abs(f.output_file)] + match f.import_library {
            Some(i) => seq![norm_abs(i)],
            None => Seq::empty(),
        },
        implicit_outputs: Seq::empty(),
        rule: rule,
        inputs: f.files.map_values(|x: Seq<char>| norm_rel(proj_dir, x)),
        implicit_inputs: deps.map_values(|d: Seq<char>| norm_abs(d)),
        order_only_deps: Seq::empty(),
        flags: Some(with_rsp(f.flags, rsp)),
        pool: None,
    }
}

pub open spec fn final_ok(f: SpecFlags, proj_dir: Seq<char>, deps: Seq<Seq<char>>) -> bool {
    &&& normalizable(Seq::empty(), f.output_file)
    &&& (f.import_library matches Some(i) ==> normalizable(Seq::empty(), i))
    &&& forall|k: int| 0 <= k < f.files.len() ==> normalizable(proj_dir, #[trigger] f.files[k])
    &&& forall|k: int| 0 <= k < deps.len() ==> normalizable(Seq::empty(), #[trigger] deps[k])
}

fn build_final_statement(
    rule: &str,
    flags: &Flags,
    rsp_path: &str,
    proj_dir: &str,
    depends_on: &Vec<String>,
) -> (r: NinjaBuildStatement)
    requires
        final_ok(flags@, proj_dir@, seq_of_strings(depends_on@)),
    ensures
        r@ == final_stmt_spec(rule@, flags@, rsp_path@, proj_dir@, seq_of_strings(depends_on@)),
{
    proof {
        reveal_strlit("");
        assert(""@ =~= Seq::<char>::empty());
    }
    let mut outputs: Vec<String> = Vec::new();
    outputs.push(normalize_path(flags.output_file.as_str()));
    match &flags.import_library {
        Some(i) => outputs.push(normalize_path(i.as_str())),
        None => {},
    }
    let flag_str = interpolate_rsp(&flags.flags, rsp_path);
    assert forall|k: int| 0 <= k < flags.files@.len() implies normalizable(
        proj_dir@,
        #[trigger] flags.files@[k]@,
    ) by {
        assert(flags@.files[k] == flags.files@[k]@);
    }
    let inputs = normalize_all(proj_dir, &flags.files);
    assert forall|k: int| 0 <= k < depends_on@.len() implies normalizable(
        ""@,
        #[trigger] depends_on@[k]@,
    ) by {
        assert(seq_of_strings(depends_on@)[k] == depends_on@[k]@);
    }
    let implicit_inputs = normalize_all("", depends_on);
    let r = NinjaBuildStatement {
        outputs,
        implicit_outputs: Vec::new(),
        rule: rule.to_owned(),
        inputs,
        implicit_inputs,
        order_only_deps: Vec::new(),
        flags: Some(flag_str),
        pool: None,
    };
    assert(r@.outputs =~= final_stmt_spec(
        rule@,
        flags@,
        rsp_path@,
        proj_dir@,
        seq_of_strings(depends_on@),
    ).outputs);
    assert(r@.implicit_outputs =~= Seq::<Seq<char>>::empty());
    assert(r@.order_only_deps =~= Seq::<Seq<char>>::empty());
    assert(r@.implicit_inputs =~= seq_of_strings(depends_on@).map_values(
        |d: Seq<char>| norm_abs(d),
    ));
    r
}


pub open spec fn opt_norm(o: Option<Seq<char>>) -> Seq<Seq<char>> {
    match o {
        Some(p) => seq![norm_abs(p)],
        None => Seq::empty(),
    }
}

/// The compile statement of a group whose command line uses the response
/// file `rsp`.
pub open spec fn cl_stmt_spec(g: SpecClGroup, rsp: Seq<char>, proj_dir: Seq<char>) -> SpecStmt {
    SpecStmt {
        outputs: g.flags.files.map_values(
            |src: Seq<char>| norm_abs(compute_obj_spec(g.flags.output_file, src)),
        ),
        implicit_outputs: opt_norm(g.pch_output),
        rule: "cl"@,
        inputs: g.flags.files.map_values(|src: Seq<char>| norm_rel(proj_dir, src)),
        implicit_inputs: opt_norm(g.pch_input) + g.header_deps,
        order_only_deps: Seq::empty(),
        flags: Some(with_rsp(g.flags.flags, rsp)),
        pool: match g.fd_path {
            Some(fd) => Some(fd_pool_name_spec(fd)),
            None => None,
        },
    }
}

/// What a compile group needs for its statement: every source has an
/// object file, and every path of the statement normalizes.
pub open spec fn cl_group_ok(g: SpecClGroup, proj_dir: Seq<char>) -> bool {
    &&& forall|k: int|
        0 <= k < g.flags.files.len() ==> {
            &&& obj_computable(g.flags.output_file, #[trigger] g.flags.files[k])
            &&& normalizable(
                Seq::empty(),
                compute_obj_spec(g.flags.output_file, g.flags.files[k]),
            )
            &&& normalizable(proj_dir, g.flags.files[k])
        }
    &&& (g.pch_output matches Some(p) ==> normalizable(Seq::empty(), p))
    &&& (g.pch_input matches Some(p) ==> normalizable(Seq::empty(), p))
}

fn opt_normalized(o: &Option<String>) -> (r: Vec<String>)
    requires
        opt_view(*o) matches Some(p) ==> normalizable(Seq::empty(), p),
    ensures
        seq_of_strings(r@) == opt_norm(opt_view(*o)),
{
    let mut r: Vec<String> = Vec::new();
    match o {
        Some(p) => {
            r.push(normalize_path(p.as_str()));
        },
        None => {},
    }
    assert(seq_of_strings(r@) =~= opt_norm(opt_view(*o)));
    r
}

fn cl_statement(group: &ClGroup, rsp_path: &str, proj_dir: &str) -> (r: NinjaBuildStatement)
    requires
        cl_group_ok(group@, proj_dir@),
    ensures
        r@ == cl_stmt_spec(group@, rsp_path@, proj_dir@),
{
    let ghost g = group@;
    let files = &group.flags.files;
    let mut outputs: Vec<String> = Vec::new();
    let mut i: usize = 0;
    while i < files.len()
        invariant
            i <= files.len(),
            files == &group.flags.files,
            g == group@,
            cl_group_ok(g, proj_dir@),
            seq_of_strings(outputs@) == seq_of_strings(files@.take(i as int)).map_values(
                |src: Seq<char>| norm_abs(compute_obj_spec(g.flags.output_file, src)),
            ),
        decreases files.len() - i,
    {
        assert(g.flags.files[i as int] == files@[i as int]@);
        let obj = compute_obj(group.flags.output_file.as_str(), files[i].as_str());
        let n = normalize_path(obj.as_str());
        let ghost before = seq_of_strings(outputs@);
        outputs.push(n);
        assert(seq_of_strings(outputs@) =~= before.push(n@));
        assert(seq_of_strings(files@.take(i + 1)) =~= seq_of_strings(files@.take(i as int)).push(
            files@[i as int]@,
        ));
        assert(seq_of_strings(outputs@) =~= seq_of_strings(files@.take(i + 1)).map_values(
            |src: Seq<char>| norm_abs(compute_obj_spec(g.flags.output_file, src)),
        ));
        i += 1;
    }
    assert(files@.take(files.len() as int) =~= files@);
    let implicit_outputs = opt_normalized(&group.pch_output);
    assert forall|k: int| 0 <= k < files@.len() implies normalizable(
        proj_dir@,
        #[trigger] files@[k]@,
    ) by {
        assert(g.flags.files[k] == files@[k]@);
    }
    let inputs = normalize_all(proj_dir, files);
    let mut implicit_inputs = opt_normalized(&group.pch_input);
    let ghost pre = seq_of_strings(implicit_inputs@);
    let mut j: usize = 0;
    while j < group.header_deps.len()
        invariant
            j <= group.header_deps.len(),
            seq_of_strings(implicit_inputs@) == pre + seq_of_strings(
                group.header_deps@.take(j as int),
            ),
        decreases group.header_deps.len() - j,
    {
        let d = group.header_deps[j].clone();
        let ghost before = seq_of_strings(implicit_inputs@);
        implicit_inputs.push(d);
        assert(seq_of_strings(implicit_inputs@) =~= before.push(group.header_deps@[j as int]@));
        assert(seq_of_strings(group.header_deps@.take(j + 1)) =~= seq_of_strings(
            group.header_deps@.take(j as int),
        ).push(group.header_deps@[j as int]@));
        assert(seq_of_strings(implicit_inputs@) =~= pre + seq_of_strings(
            group.header_deps@.take(j + 1),
        ));
        j += 1;
    }
    assert(group.header_deps@.take(group.header_deps.len() as int) =~= group.header_deps@);
    let flag_str = interpolate_rsp(&group.flags.flags, rsp_path);
    let pool = match &group.fd_path {
        Some(fd) => Some(fd_pool_name(fd.as_str())),
        None => None,
    };
    let r = NinjaBuildStatement {
        outputs,
        implicit_outputs,
        rule: "cl".to_owned(),
        inputs,
        implicit_inputs,
        order_only_deps: Vec::new(),
        flags: Some(flag_str),
        pool,
    };
    assert(r@.order_only_deps =~= Seq::<Seq<char>>::empty());
    r
}

/// The response file of a project's step: `stem` and `suffix` in `rsp_dir`.
pub open spec fn rsp_path_spec(rsp_dir: Seq<char>, stem: Seq<char>, suffix: Seq<char>) -> Seq<char> {
    join_spec(rsp_dir, stem + suffix)
}

pub open spec fn cl_rsp_suffix(i: nat) -> Seq<char> {
    "_cl_"@ + dec(i) + ".rsp"@
}

fn rsp_path(rsp_dir: &str, stem: &str, suffix: &str) -> (r: String)
    ensures
        r@ == rsp_path_spec(rsp_dir@, stem@, suffix@),
{
    let mut name = stem.to_owned();
    push_str(&mut name, suffix);
    join_path(rsp_dir, name.as_str())
}

fn cl_rsp_path(rsp_dir: &str, stem: &str, i: usize) -> (r: String)
    ensures
        r@ == rsp_path_spec(rsp_dir@, stem@, cl_rsp_suffix(i as nat)),
{
    let mut suffix = "_cl_".to_owned();
    let num = usize_to_string(i);
    push_str(&mut suffix, num.as_str());
    push_str(&mut suffix, ".rsp");
    rsp_path(rsp_dir, stem, suffix.as_str())
}

impl NinjaBuildStatement {
    fn push_body(&self, out: &mut String)
        ensures
            final(out)@ == old(out)@ + stmt_body(self@),
    {
        let ghost s = self@;
        let ghost base = out@;
        let has_inputs = self.inputs.len() > 0;
        let has_implicit = self.implicit_inputs.len() > 0;
        let has_oo = self.order_only_deps.len() > 0;
        if !has_inputs && !has_implicit && !has_oo {
            push_str(out, "    : ");
            push_str(out, self.rule.as_str());
            push_str(out, "\n");
            assert(out@ =~= base + stmt_body(s));
        } else {
            push_str(out, "    : ");
            push_str(out, self.rule.as_str());
            push_str(out, " $\n");
            push_input_lines(out, &self.inputs, has_implicit || has_oo);
            push_implicit_input_lines(out, &self.implicit_inputs, has_oo);
            let ghost before_oo = out@;
            if has_oo {
                push_str(out, "    ||");
                push_order_only(out, &self.order_only_deps);
                push_str(out, "\n");
                assert(out@ =~= before_oo + ("    ||"@ + order_only_items(s.order_only_deps)
                    + "\n"@));
            } else {
                assert(out@ =~= before_oo + Seq::<char>::empty());
            }
            assert(out@ =~= base + stmt_body(s));
        }
    }

    /// Appends the statement's text to `out` (see [`render_stmt`]).
    pub fn render(&self, out: &mut String)
        ensures
            final(out)@ == old(out)@ + render_stmt(self@),
    {
        let ghost s = self@;
        let ghost start = out@;
        if self.outputs.len() == 0 {
            assert(out@ =~= start + Seq::<char>::empty());
            return;
        }
        push_str(out, "build $\n");
        push_output_lines(out, &self.outputs);
        push_implicit_output_lines(out, &self.implicit_outputs);
        self.push_body(out);
        push_binding(out, "flags", &self.flags);
        push_binding(out, "pool", &self.pool);
        push_str(out, "\n");
        assert(out@ =~= start + render_stmt(s));
    }
}


/// The last step of a project: a static library, or a link.
pub enum FinalStep {
    /// Static library: `lib`.
    Lib(Flags),
    /// Executable or DLL: `link`.
    Link(Flags),
}

pub open spec fn final_flags(f: FinalStep) -> SpecFlags {
    match f {
        FinalStep::Lib(x) => x@,
        FinalStep::Link(x) => x@,
    }
}

pub open spec fn final_rule(f: FinalStep) -> Seq<char> {
    match f {
        FinalStep::Lib(_) => "lib"@,
        FinalStep::Link(_) => "link"@,
    }
}

pub open spec fn final_suffix(f: FinalStep) -> Seq<char> {
    match f {
        FinalStep::Lib(_) => "_lib.rsp"@,
        FinalStep::Link(_) => "_link.rsp"@,
    }
}

/// The build graph of one project.
pub struct NinjaFile {
    pub cl: Vec<ClGroup>,
    pub final_step: FinalStep,
    /// Absolute directory of the project; commands run there.
    pub proj_dir: String,
    /// Output files of the projects this one depends on.
    pub depends_on: Vec<String>,
}

/// The text and response files produced for one project.
pub struct NinjaOutput {
    pub ninja_text: String,
    /// (path, content) of each response file; the caller writes them.
    pub rsp_files: Vec<(String, String)>,
    /// Directories that must exist before the build runs.
    pub required_dirs: Vec<String>,
}

pub open spec fn groups_view(cl: Seq<ClGroup>) -> Seq<SpecClGroup> {
    cl.map_values(|g: ClGroup| g@)
}

pub open spec fn stmts_view(v: Seq<NinjaBuildStatement>) -> Seq<SpecStmt> {
    v.map_values(|s: NinjaBuildStatement| s@)
}

pub open spec fn pairs_view(v: Seq<(String, String)>) -> Seq<(Seq<char>, Seq<char>)> {
    v.map_values(|p: (String, String)| (p.0@, p.1@))
}

/// The compile statements of the groups that have sources, in order.
pub open spec fn cl_stmts(
    gs: Seq<SpecClGroup>,
    rsp_dir: Seq<char>,
    stem: Seq<char>,
    proj_dir: Seq<char>,
) -> Seq<SpecStmt>
    decreases gs.len(),
{
    if gs.len() == 0 {
        Seq::empty()
    } else {
        let prev = cl_stmts(gs.drop_last(), rsp_dir, stem, proj_dir);
        let i = (gs.len() - 1) as nat;
        if gs.last().flags.files.len() > 0 {
            prev.push(
                cl_stmt_spec(gs.last(), rsp_path_spec(rsp_dir, stem, cl_rsp_suffix(i)), proj_dir),
            )
        } else {
            prev
        }
    }
}

/// The parent directories of the `/Fd` files of the groups that have sources.
pub open spec fn cl_dirs(gs: Seq<SpecClGroup>) -> Seq<Seq<char>>
    decreases gs.len(),
{
    if gs.len() == 0 {
        Seq::empty()
    } else {
        let prev = cl_dirs(gs.drop_last());
        let g = gs.last();
        if g.flags.files.len() > 0 {
            match g.fd_path {
                Some(fd) => match parent_spec(fd) {
                    Some(p) => prev.push(p),
                    None => prev,
                },
                None => prev,
            }
        } else {
            prev
        }
    }
}

/// The pools of the groups, each name once, in order of first use.
pub open spec fn pool_names(gs: Seq<SpecClGroup>) -> Seq<Seq<char>>
    decreases gs.len(),
{
    if gs.len() == 0 {
        Seq::empty()
    } else {
        let prev = pool_names(gs.drop_last());
        match gs.last().fd_path {
            Some(fd) => if prev.contains(fd_pool_name_spec(fd)) {
                prev
            } else {
                prev.push(fd_pool_name_spec(fd))
            },
            None => prev,
        }
    }
}

/// The response file of each compile group.
pub open spec fn cl_rsp_files(gs: Seq<SpecClGroup>, rsp_dir: Seq<char>, stem: Seq<char>) -> Seq<
    (Seq<char>, Seq<char>),
> {
    gs.map(
        |i: int, g: SpecClGroup|
            (
                rsp_path_spec(rsp_dir, stem, cl_rsp_suffix(i as nat)),
                rsp_content_spec(g.flags.rsp_flags, g.flags.files),
            ),
    )
}

pub open spec fn pool_block(name: Seq<char>) -> Seq<char> {
    "pool "@ + name + "\n"@ + "  depth = 1\n"@ + "\n"@
}

pub open spec fn phony_spec(stem: Seq<char>, output_file: Seq<char>) -> SpecStmt {
    SpecStmt {
        outputs: seq![stem],
        implicit_outputs: Seq::empty(),
        rule: "phony"@,
        inputs: seq![output_file],
        implicit_inputs: Seq::empty(),
        order_only_deps: Seq::empty(),
        flags: None,
        pool: None,
    }
}

impl NinjaFile {
    pub open spec fn groups(&self) -> Seq<SpecClGroup> {
        groups_view(self.cl@)
    }

    pub open spec fn final_rsp(&self, stem: Seq<char>, rsp_dir: Seq<char>) -> Seq<char> {
        rsp_path_spec(rsp_dir, stem, final_suffix(self.final_step))
    }

    /// All statements: compile steps, the final step, and the phony target
    /// named `stem`.
    pub open spec fn statements_spec(&self, stem: Seq<char>, rsp_dir: Seq<char>) -> Seq<SpecStmt> {
        let ff = final_flags(self.final_step);
        cl_stmts(self.groups(), rsp_dir, stem, self.proj_dir@) + seq![
            final_stmt_spec(
                final_rule(self.final_step),
                ff,
                self.final_rsp(stem, rsp_dir),
                self.proj_dir@,
                seq_of_strings(self.depends_on@),
            ),
            phony_spec(stem, ff.output_file),
        ]
    }

    /// The file: the `proj_dir` binding, one pool of depth 1 per `/Fd` file,
    /// the rules, then every statement.
    pub open spec fn text_spec(&self, stem: Seq<char>, rsp_dir: Seq<char>) -> Seq<char> {
        "proj_dir = "@ + self.proj_dir@ + "\n"@ + "\n"@ + concat_all(
            pool_names(self.groups()).map_values(|n: Seq<char>| pool_block(n)),
        ) + rules_text() + concat_all(
            self.statements_spec(stem, rsp_dir).map_values(|t: SpecStmt| render_stmt(t)),
        )
    }

    /// One response file per compile group, then the final step's.
    pub open spec fn rsp_files_spec(&self, stem: Seq<char>, rsp_dir: Seq<char>) -> Seq<
        (Seq<char>, Seq<char>),
    > {
        let ff = final_flags(self.final_step);
        cl_rsp_files(self.groups(), rsp_dir, stem).push(
            (self.final_rsp(stem, rsp_dir), rsp_content_spec(ff.rsp_flags, ff.files)),
        )
    }

    pub open spec fn required_dirs_spec(&self) -> Seq<Seq<char>> {
        cl_dirs(self.groups()) + match parent_spec(final_flags(self.final_step).output_file) {
            Some(p) => seq![p],
            None => Seq::empty(),
        }
    }

    /// What `write` needs: every path it normalizes can be normalized, and
    /// every source has an object file.
    pub open spec fn write_ok(&self) -> bool {
        &&& forall|k: int|
            0 <= k < self.groups().len() && #[trigger] self.groups()[k].flags.files.len() > 0
                ==> cl_group_ok(self.groups()[k], self.proj_dir@)
        &&& final_ok(
            final_flags(self.final_step),
            self.proj_dir@,
            seq_of_strings(self.depends_on@),
        )
    }
}

fn contains_string(v: &Vec<String>, s: &String) -> (r: bool)
    ensures
        r == seq_of_strings(v@).contains(s@),
{
    let mut i: usize = 0;
    while i < v.len()
        invariant
            i <= v.len(),
            forall|k: int| 0 <= k < i ==> seq_of_strings(v@)[k] != s@,
        decreases v.len() - i,
    {
        if str_eq(v[i].as_str(), s.as_str()) {
            assert(seq_of_strings(v@)[i as int] == s@);
            return true;
        }
        i += 1;
    }
    false
}

fn push_pools(out: &mut String, cl: &Vec<ClGroup>)
    ensures
        final(out)@ == old(out)@ + concat_all(
            pool_names(groups_view(cl@)).map_values(|n: Seq<char>| pool_block(n)),
        ),
{
    let ghost gs = groups_view(cl@);
    let ghost base = out@;
    let mut seen: Vec<String> = Vec::new();
    let mut i: usize = 0;
    assert(gs.take(0) =~= Seq::<SpecClGroup>::empty());
    while i < cl.len()
        invariant
            i <= cl.len(),
            gs == groups_view(cl@),
            seq_of_strings(seen@) == pool_names(gs.take(i as int)),
            out@ == base + concat_all(
                pool_names(gs.take(i as int)).map_values(|n: Seq<char>| pool_block(n)),
            ),
        decreases cl.len() - i,
    {
        assert(gs.take(i + 1).drop_last() =~= gs.take(i as int));
        assert(gs.take(i + 1).last() == cl@[i as int]@);
        match &cl[i].fd_path {
            Some(fd) => {
                let name = fd_pool_name(fd.as_str());
                if !contains_string(&seen, &name) {
                    let ghost names = seq_of_strings(seen@);
                    push_str(out, "pool ");
                    push_str(out, name.as_str());
                    push_str(out, "\n");
                    push_str(out, "  depth = 1\n");
                    push_str(out, "\n");
                    seen.push(name);
                    proof {
                        assert(seq_of_strings(seen@) =~= names.push(name@));
                        assert(names.push(name@).map_values(|n: Seq<char>| pool_block(n))
                            =~= names.map_values(|n: Seq<char>| pool_block(n)).push(
                            pool_block(name@),
                        ));
                        lemma_concat_all_push(
                            names.map_values(|n: Seq<char>| pool_block(n)),
                            pool_block(name@),
                        );
                    }
                }
            },
            None => {},
        }
        i += 1;
    }
    assert(gs.take(cl.len() as int) =~= gs);
}

fn render_all(out: &mut String, stmts: &Vec<NinjaBuildStatement>)
    ensures
        final(out)@ == old(out)@ + concat_all(
            stmts_view(stmts@).map_values(|t: SpecStmt| render_stmt(t)),
        ),
{
    let ghost base = out@;
    let ghost texts = stmts_view(stmts@).map_values(|t: SpecStmt| render_stmt(t));
    let mut i: usize = 0;
    while i < stmts.len()
        invariant
            i <= stmts.len(),
            texts == stmts_view(stmts@).map_values(|t: SpecStmt| render_stmt(t)),
            out@ == base + concat_all(texts.take(i as int)),
        decreases stmts.len() - i,
    {
        stmts[i].render(out);
        proof {
            assert(texts.take(i + 1) =~= texts.take(i as int).push(texts[i as int]));
            lemma_concat_all_push(texts.take(i as int), texts[i as int]);
        }
        i += 1;
    }
    assert(texts.take(stmts.len() as int) =~= texts);
}


impl NinjaFile {
    fn cl_phase(&self, stem: &str, rsp_dir: &str) -> (r: (
        Vec<NinjaBuildStatement>,
        Vec<(String, String)>,
        Vec<String>,
    ))
        requires
            self.write_ok(),
        ensures
            stmts_view(r.0@) == cl_stmts(self.groups(), rsp_dir@, stem@, self.proj_dir@),
            pairs_view(r.1@) == cl_rsp_files(self.groups(), rsp_dir@, stem@),
            seq_of_strings(r.2@) == cl_dirs(self.groups()),
    {
        let ghost gs = self.groups();
        let mut stmts: Vec<NinjaBuildStatement> = Vec::new();
        let mut rsps: Vec<(String, String)> = Vec::new();
        let mut dirs: Vec<String> = Vec::new();
        let mut i: usize = 0;
        assert(gs.take(0) =~= Seq::<SpecClGroup>::empty());
        assert(stmts_view(stmts@) =~= Seq::<SpecStmt>::empty());
        assert(pairs_view(rsps@) =~= cl_rsp_files(gs.take(0), rsp_dir@, stem@));
        assert(seq_of_strings(dirs@) =~= Seq::<Seq<char>>::empty());
        while i < self.cl.len()
            invariant
                i <= self.cl.len(),
                self.write_ok(),
                gs == self.groups(),
                stmts_view(stmts@) == cl_stmts(gs.take(i as int), rsp_dir@, stem@, self.proj_dir@),
                pairs_view(rsps@) == cl_rsp_files(gs.take(i as int), rsp_dir@, stem@),
                seq_of_strings(dirs@) == cl_dirs(gs.take(i as int)),
            decreases self.cl.len() - i,
        {
            let group = &self.cl[i];
            let ghost g = gs[i as int];
            assert(g == group@);
            assert(gs.take(i + 1).drop_last() =~= gs.take(i as int));
            assert(gs.take(i + 1).last() == g);
            let rsp = cl_rsp_path(rsp_dir, stem, i);
            if group.flags.files.len() > 0 {
                assert(g.flags.files.len() > 0);
                let st = cl_statement(group, rsp.as_str(), self.proj_dir.as_str());
                let ghost before_dirs = seq_of_strings(dirs@);
                match &group.fd_path {
                    Some(fd) => match parent(fd.as_str()) {
                        Some(p) => {
                            dirs.push(p);
                            assert(seq_of_strings(dirs@) =~= before_dirs.push(p@));
                        },
                        None => {},
                    },
                    None => {},
                }
                let ghost before_stmts = stmts_view(stmts@);
                stmts.push(st);
                assert(stmts_view(stmts@) =~= before_stmts.push(st@));
            }
            let content = group.flags.rsp_file_content();
            let ghost before_rsps = pairs_view(rsps@);
            let ghost rsp_v = rsp@;
            let ghost content_v = content@;
            rsps.push((rsp, content));
            assert(pairs_view(rsps@) =~= before_rsps.push((rsp_v, content_v)));
            assert(cl_rsp_files(gs.take(i + 1), rsp_dir@, stem@) =~= cl_rsp_files(
                gs.take(i as int),
                rsp_dir@,
                stem@,
            ).push((rsp_v, content_v)));
            i += 1;
        }
        assert(gs.take(self.cl.len() as int) =~= gs);
        (stmts, rsps, dirs)
    }

    /// The project's build file and response files (see [`NinjaFile::text_spec`]).
    pub fn write(&self, stem: &str, rsp_dir: &str) -> (r: NinjaOutput)
        requires
            self.write_ok(),
        ensures
            r.ninja_text@ == self.text_spec(stem@, rsp_dir@),
            pairs_view(r.rsp_files@) == self.rsp_files_spec(stem@, rsp_dir@),
            seq_of_strings(r.required_dirs@) == self.required_dirs_spec(),
    {
        let (mut statements, mut rsp_files, mut required_dirs) = self.cl_phase(stem, rsp_dir);
        let ghost cl_st = stmts_view(statements@);
        let ghost cl_rsp = pairs_view(rsp_files@);
        let ghost cl_d = seq_of_strings(required_dirs@);
        let (rule, suffix, flags) = match &self.final_step {
            FinalStep::Lib(f) => ("lib", "_lib.rsp", f),
            FinalStep::Link(f) => ("link", "_link.rsp", f),
        };
        assert(flags@ == final_flags(self.final_step));
        assert(rule@ == final_rule(self.final_step));
        assert(suffix@ == final_suffix(self.final_step));
        let rsp = rsp_path(rsp_dir, stem, suffix);
        let fin = build_final_statement(rule, flags, rsp.as_str(), self.proj_dir.as_str(), &self.depends_on);
        let ghost fin_v = fin@;
        statements.push(fin);
        let content = flags.rsp_file_content();
        let ghost rsp_pair = (rsp@, content@);
        rsp_files.push((rsp, content));
        match parent(flags.output_file.as_str()) {
            Some(p) => {
                required_dirs.push(p);
                assert(seq_of_strings(required_dirs@) =~= cl_d + seq![p@]);
            },
            None => {
                assert(seq_of_strings(required_dirs@) =~= cl_d + Seq::<Seq<char>>::empty());
            },
        }
        let mut phony_out: Vec<String> = Vec::new();
        phony_out.push(stem.to_owned());
        let mut phony_in: Vec<String> = Vec::new();
        phony_in.push(flags.output_file.clone());
        let phony = NinjaBuildStatement {
            outputs: phony_out,
            implicit_outputs: Vec::new(),
            rule: "phony".to_owned(),
            inputs: phony_in,
            implicit_inputs: Vec::new(),
            order_only_deps: Vec::new(),
            flags: None,
            pool: None,
        };
        assert(phony@.outputs =~= seq![stem@]);
        assert(phony@.inputs =~= seq![flags@.output_file]);
        assert(phony@.implicit_outputs =~= Seq::<Seq<char>>::empty());
        assert(phony@.implicit_inputs =~= Seq::<Seq<char>>::empty());
        assert(phony@.order_only_deps =~= Seq::<Seq<char>>::empty());
        assert(phony@ == phony_spec(stem@, flags@.output_file));
        let ghost phony_v = phony@;
        statements.push(phony);
        assert(stmts_view(statements@) =~= cl_st + seq![fin_v, phony_v]);
        assert(pairs_view(rsp_files@) =~= cl_rsp.push(rsp_pair));
        let mut out = String::new();
        push_str(&mut out, "proj_dir = ");
        push_str(&mut out, self.proj_dir.as_str());
        push_str(&mut out, "\n");
        push_str(&mut out, "\n");
        push_pools(&mut out, &self.cl);
        write_rules(&mut out);
        render_all(&mut out, &statements);
        assert(out@ =~= self.text_spec(stem@, rsp_dir@));
        NinjaOutput { ninja_text: out, rsp_files, required_dirs }
    }
}

fn normalizable_check(base: &str, p: &str) -> (r: bool)
    ensures
        r == normalizable(base@, p@),
{
    let j = join_path(base, p);
    normalize_lexically(j.as_str()).is_some()
}

fn cl_group_ok_check(g: &ClGroup, proj_dir: &str) -> (r: bool)
    ensures
        r == cl_group_ok(g@, proj_dir@),
{
    let out = g.flags.output_file.as_str();
    let names_obj = match extension(out) {
        Some(e) => is_obj_str(&e),
        None => false,
    };
    let ghost files = seq_of_strings(g.flags.files@);
    assert(g@.flags.files == files);
    let mut k: usize = 0;
    while k < g.flags.files.len()
        invariant
            k <= g.flags.files.len(),
            files == seq_of_strings(g.flags.files@),
            g@.flags.files == files,
            out@ == g@.flags.output_file,
            names_obj == names_obj_file(out@),
            forall|j: int| 0 <= j < k ==> {
                &&& obj_computable(g@.flags.output_file, #[trigger] files[j])
                &&& normalizable(Seq::empty(), compute_obj_spec(g@.flags.output_file, files[j]))
                &&& normalizable(proj_dir@, files[j])
            },
        decreases g.flags.files.len() - k,
    {
        let src = g.flags.files[k].as_str();
        assert(files[k as int] == src@);
        if !names_obj && file_stem(src).is_none() {
            return false;
        }
        let obj = compute_obj(out, src);
        if !normalizable_check("", obj.as_str()) {
            proof {
                reveal_strlit("");
                assert(""@ =~= Seq::<char>::empty());
            }
            return false;
        }
        if !normalizable_check(proj_dir, src) {
            return false;
        }
        proof {
            reveal_strlit("");
            assert(""@ =~= Seq::<char>::empty());
        }
        k += 1;
    }
    proof {
        reveal_strlit("");
        assert(""@ =~= Seq::<char>::empty());
    }
    match &g.pch_output {
        Some(p) => {
            if !normalizable_check("", p.as_str()) {
                return false;
            }
        },
        None => {},
    }
    match &g.pch_input {
        Some(p) => {
            if !normalizable_check("", p.as_str()) {
                return false;
            }
        },
        None => {},
    }
    true
}

impl NinjaFile {
    /// Whether the paths of the build graph can be normalized and every
    /// object file named (see [`NinjaFile::write_ok`]): what
    /// [`NinjaFile::write`] needs.
    pub fn write_ok_check(&self) -> (r: bool)
        ensures
            r == self.write_ok(),
    {
        proof {
            reveal_strlit("");
            assert(""@ =~= Seq::<char>::empty());
        }
        let mut k: usize = 0;
        while k < self.cl.len()
            invariant
                k <= self.cl.len(),
                forall|j: int|
                    0 <= j < k && #[trigger] self.groups()[j].flags.files.len() > 0 ==> cl_group_ok(
                        self.groups()[j],
                        self.proj_dir@,
                    ),
            decreases self.cl.len() - k,
        {
            assert(self.groups()[k as int] == self.cl@[k as int]@);
            if self.cl[k].flags.files.len() > 0 && !cl_group_ok_check(&self.cl[k], self.proj_dir.as_str()) {
                return false;
            }
            k += 1;
        }
        let f = match &self.final_step {
            FinalStep::Lib(x) => x,
            FinalStep::Link(x) => x,
        };
        assert(f@ == final_flags(self.final_step));
        if !normalizable_check("", f.output_file.as_str()) {
            return false;
        }
        match &f.import_library {
            Some(i) => {
                if !normalizable_check("", i.as_str()) {
                    return false;
                }
            },
            None => {},
        }
        let ghost ff = f@.files;
        let mut j: usize = 0;
        while j < f.files.len()
            invariant
                j <= f.files.len(),
                ff == f@.files,
                ff == seq_of_strings(f.files@),
                f@ == final_flags(self.final_step),
                forall|i: int| 0 <= i < j ==> normalizable(self.proj_dir@, #[trigger] ff[i]),
            decreases f.files.len() - j,
        {
            assert(ff[j as int] == f.files@[j as int]@);
            if !normalizable_check(self.proj_dir.as_str(), f.files[j].as_str()) {
                return false;
            }
            j += 1;
        }
        let ghost ds = seq_of_strings(self.depends_on@);
        let mut d: usize = 0;
        while d < self.depends_on.len()
            invariant
                d <= self.depends_on.len(),
                ds == seq_of_strings(self.depends_on@),
                forall|i: int| 0 <= i < d ==> normalizable(Seq::empty(), #[trigger] ds[i]),
            decreases self.depends_on.len() - d,
        {
            proof {
                reveal_strlit("");
                assert(""@ =~= Seq::<char>::empty());
            }
            assert(ds[d as int] == self.depends_on@[d as int]@);
            if !normalizable_check("", self.depends_on[d].as_str()) {
                return false;
            }
            d += 1;
        }
        true
    }
}

} // verus!
