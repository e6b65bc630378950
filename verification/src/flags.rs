//! The command line of one tool invocation (cl, lib or link) and the
//! compile groups of a project.
use vstd::prelude::*;
use crate::text::{concat_all, lemma_concat_all_push, opt_view, push_char, push_str, seq_of_strings};

verus! {

/// One tool invocation.
pub struct Flags {
    /// CL: the expanded object directory (trailing backslash);
    /// LIB/LINK: the expanded output file.
    pub output_file: String,
    /// For DLL link steps: the import library (`/IMPLIB:`), which dependents
    /// link against.
    pub import_library: Option<String>,
    /// The command line; `$(RspFile)` stands for the response file.
    pub flags: String,
    /// Flags stored in the response file.
    pub rsp_flags: String,
    /// CL: source files; LIB/LINK: object files.
    pub files: Vec<String>,
}

/// Mathematical view of [`Flags`].
pub struct SpecFlags {
    pub output_file: Seq<char>,
    pub import_library: Option<Seq<char>>,
    pub flags: Seq<char>,
    pub rsp_flags: Seq<char>,
    pub files: Seq<Seq<char>>,
}

impl View for Flags {
    type V = SpecFlags;

    open spec fn view(&self) -> SpecFlags {
        SpecFlags {
            output_file: self.output_file@,
            import_library: opt_view(self.import_library),
            flags: self.flags@,
            rsp_flags: self.rsp_flags@,
            files: seq_of_strings(self.files@),
        }
    }
}

/// Response file text: the flags, then each file quoted on a line of its own.
pub open spec fn rsp_content_spec(rsp_flags: Seq<char>, files: Seq<Seq<char>>) -> Seq<char> {
    rsp_flags + concat_all(files.map_values(|f: Seq<char>| seq!['\n', '"'] + f + seq!['"']))
}

impl Flags {
    /// The response file content (see [`rsp_content_spec`]).
    pub fn rsp_file_content(&self) -> (r: String)
        ensures
            r@ == rsp_content_spec(self.rsp_flags@, seq_of_strings(self.files@)),
    {
        let mut content = self.rsp_flags.clone();
        let ghost fs = seq_of_strings(self.files@);
        let ghost lines = fs.map_values(|f: Seq<char>| seq!['\n', '"'] + f + seq!['"']);
        let mut i: usize = 0;
        while i < self.files.len()
            invariant
                i <= self.files.len(),
                fs == seq_of_strings(self.files@),
                lines == fs.map_values(|f: Seq<char>| seq!['\n', '"'] + f + seq!['"']),
                content@ == self.rsp_flags@ + concat_all(lines.take(i as int)),
            decreases self.files.len() - i,
        {
            push_char(&mut content, '\n');
            push_char(&mut content, '"');
            push_str(&mut content, self.files[i].as_str());
            push_char(&mut content, '"');
            proof {
                assert(lines.take(i + 1) =~= lines.take(i as int).push(lines[i as int]));
                lemma_concat_all_push(lines.take(i as int), lines[i as int]);
                assert(lines[i as int] =~= seq!['\n', '"'] + self.files@[i as int]@ + seq!['"']);
            }
            i += 1;
        }
        assert(lines.take(self.files.len() as int) =~= lines);
        content
    }
}

/// One compile step of a project: sources sharing the same flags.
pub struct ClGroup {
    pub flags: Flags,
    /// PCH file this step creates (`/Yc`); an implicit output.
    pub pch_output: Option<String>,
    /// PCH file this step uses (`/Yu`); an implicit input.
    pub pch_input: Option<String>,
    /// Expanded `/Fd` path shared by the project's compile steps; it names
    /// the pool that keeps them from writing the PDB in parallel.
    pub fd_path: Option<String>,
    /// `/I` directories of the step, as written in the flags.
    pub include_dirs: Vec<String>,
    /// `/D` definitions of the step, `NAME` or `NAME=VALUE`.
    pub defines: Vec<String>,
    /// Headers the sources include, in build-graph form.
    pub header_deps: Vec<String>,
}

/// Mathematical view of [`ClGroup`].
pub struct SpecClGroup {
    pub flags: SpecFlags,
    pub pch_output: Option<Seq<char>>,
    pub pch_input: Option<Seq<char>>,
    pub fd_path: Option<Seq<char>>,
    pub include_dirs: Seq<Seq<char>>,
    pub defines: Seq<Seq<char>>,
    pub header_deps: Seq<Seq<char>>,
}

impl View for ClGroup {
    type V = SpecClGroup;

    open spec fn view(&self) -> SpecClGroup {
        SpecClGroup {
            flags: self.flags@,
            pch_output: opt_view(self.pch_output),
            pch_input: opt_view(self.pch_input),
            fd_path: opt_view(self.fd_path),
            include_dirs: seq_of_strings(self.include_dirs@),
            defines: seq_of_strings(self.defines@),
            header_deps: seq_of_strings(self.header_deps@),
        }
    }
}

} // verus!
