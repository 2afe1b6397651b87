//! The scan driver.
//!
//! Per file: split the content into lines, match every line against the
//! class-header pattern, and for each match extract the class body, parse its
//! members, and classify them. Violations appear in body-scan order within a
//! file, and in the given file order across files. Each file is analysed
//! independently of every other.

use vstd::prelude::*;

use crate::body::{class_body_indices, extract_class_body};
use crate::chars::str_to_chars;
use crate::classify::{classify_members, classify_spec, Violation, ViolationData};
use crate::header::{find_class_header, header_match};
use crate::lines::{split_lines, split_lines_spec};
use crate::member::{parse_member_line, parse_member_spec, Member, MemberData};

verus! {

broadcast use crate::text::lemma_vec_char_deep_view;

/// The members parsed from the body lines `idxs[0..k]`, in order.
pub open spec fn members_from(lines: Seq<Seq<char>>, idxs: Seq<int>, k: int) -> Seq<MemberData>
    decreases k
        when 0 <= k <= idxs.len()
{
    if k <= 0 {
        Seq::empty()
    } else {
        members_from(lines, idxs, k - 1) + match parse_member_spec(
            lines[idxs[k - 1]],
            idxs[k - 1],
        ) {
            Some(m) => seq![m],
            None => Seq::empty(),
        }
    }
}

/// The ordered members of the class whose header is line `h`.
pub open spec fn class_members(lines: Seq<Seq<char>>, h: int) -> Seq<MemberData> {
    let idxs = class_body_indices(lines, h);
    members_from(lines, idxs, idxs.len() as int)
}

/// What scanning line `i` contributes: nothing unless the line is a class
/// header, else the classifier's output for that class.
pub open spec fn line_violations(lines: Seq<Seq<char>>, path: Seq<char>, i: int) -> Seq<
    ViolationData,
> {
    match header_match(lines[i]) {
        Some(name) => classify_spec(path, name, class_members(lines, i)),
        None => Seq::empty(),
    }
}

/// The violations of the first `i` lines, in line order.
pub open spec fn file_violations_upto(lines: Seq<Seq<char>>, path: Seq<char>, i: int) -> Seq<
    ViolationData,
>
    decreases i
        when 0 <= i <= lines.len()
{
    if i <= 0 {
        Seq::empty()
    } else {
        file_violations_upto(lines, path, i - 1) + line_violations(lines, path, i - 1)
    }
}

/// Every violation of one file, in body-scan order.
pub open spec fn check_file_spec(content: Seq<char>, path: Seq<char>) -> Seq<ViolationData> {
    let lines = split_lines_spec(content);
    file_violations_upto(lines, path, lines.len() as int)
}

/// Scan one file's full content for string-enumeration casing violations.
pub fn check_file(content: &str, file_path: &str) -> (r: Vec<Violation>)
    ensures
        r.deep_view() == check_file_spec(content@, file_path@),
{
    let cs = str_to_chars(content);
    let lines = split_lines(&cs);
    let ghost gl = lines.deep_view();
    let n: usize = lines.len();
    let mut out: Vec<Violation> = Vec::new();
    assert(out.deep_view() =~= file_violations_upto(gl, file_path@, 0));
    let mut i: usize = 0;
    while i < n
        invariant
            i <= n,
            n == gl.len(),
            gl == lines.deep_view(),
            gl == split_lines_spec(content@),
            out.deep_view() == file_violations_upto(gl, file_path@, i as int),
        decreases n - i,
    {
        assert(gl[i as int] == lines@[i as int]@);
        let hm = find_class_header(&lines[i]);
        if let Some(name) = hm {
            let idxs = extract_class_body(&lines, i);
            let ghost gidxs = class_body_indices(gl, i as int);
            assert(idxs@.map_values(|u: usize| u as int) == gidxs);
            let mut members: Vec<Member> = Vec::new();
            assert(members.deep_view() =~= members_from(gl, gidxs, 0));
            let mut k: usize = 0;
            let nk: usize = idxs.len();
            while k < nk
                invariant
                    k <= nk,
                    nk == idxs@.len(),
                    gidxs == idxs@.map_values(|u: usize| u as int),
                    gidxs.len() == idxs@.len(),
                    forall|t: int| 0 <= t < idxs@.len() ==> idxs@[t] < n,
                    members.deep_view() == members_from(gl, gidxs, k as int),
                    forall|t: int|
                        0 <= t < members@.len() ==> (#[trigger] members@[t])@.line < n,
                decreases nk - k,
            {
                let j = idxs[k];
                assert(j as int == gidxs[k as int]);
                assert(gl[j as int] == lines@[j as int]@);
                let pm = parse_member_line(&lines[j], j);
                let ghost old_members = members.deep_view();
                match pm {
                    Some(m) => {
                        members.push(m);
                        assert(members.deep_view() =~= old_members + seq![m@]);
                    },
                    None => {},
                }
                assert(members.deep_view() == members_from(gl, gidxs, k + 1 as int));
                k = k + 1;
            }
            assert(members.deep_view() == class_members(gl, i as int));
            let mut vs = classify_members(file_path, &name, &members);
            assert(vs.deep_view() == line_violations(gl, file_path@, i as int));
            let ghost old_out = out.deep_view();
            let ghost gvs = vs.deep_view();
            out.append(&mut vs);
            assert(out.deep_view() =~= old_out + gvs);
        } else {
            assert(line_violations(gl, file_path@, i as int) =~= Seq::<ViolationData>::empty());
            assert(out.deep_view() + Seq::<ViolationData>::empty() =~= out.deep_view());
        }
        assert(out.deep_view() == file_violations_upto(gl, file_path@, i + 1 as int));
        i = i + 1;
    }
    out
}

/// One file handed to the scanner: its path and its full text.
pub struct SourceFile {
    /// The path the file was read from, as reported in violations.
    pub path: String,
    /// The file's full content.
    pub text: String,
}

/// The mathematical image of a `SourceFile`.
pub ghost struct SourceFileData {
    pub path: Seq<char>,
    pub text: Seq<char>,
}

impl View for SourceFile {
    type V = SourceFileData;

    open spec fn view(&self) -> SourceFileData {
        SourceFileData { path: self.path@, text: self.text@ }
    }
}

impl DeepView for SourceFile {
    type V = SourceFileData;

    open spec fn deep_view(&self) -> SourceFileData {
        self.view()
    }
}

/// The violations of the first `i` files, in file order.
pub open spec fn scan_upto(files: Seq<SourceFileData>, i: int) -> Seq<ViolationData>
    decreases i
        when 0 <= i <= files.len()
{
    if i <= 0 {
        Seq::empty()
    } else {
        scan_upto(files, i - 1) + check_file_spec(files[i - 1].text, files[i - 1].path)
    }
}

/// Every violation of a scan, in file order then body-scan order.
pub open spec fn scan_spec(files: Seq<SourceFileData>) -> Seq<ViolationData> {
    scan_upto(files, files.len() as int)
}

/// Scan a list of files, concatenating each file's violations in order.
pub fn scan_files(files: &Vec<SourceFile>) -> (r: Vec<Violation>)
    ensures
        r.deep_view() == scan_spec(files.deep_view()),
{
    let ghost gf = files.deep_view();
    let n: usize = files.len();
    let mut out: Vec<Violation> = Vec::new();
    assert(out.deep_view() =~= scan_upto(gf, 0));
    let mut i: usize = 0;
    while i < n
        invariant
            i <= n,
            n == gf.len(),
            gf == files.deep_view(),
            out.deep_view() == scan_upto(gf, i as int),
        decreases n - i,
    {
        assert(gf[i as int] == files@[i as int]@);
        let f = &files[i];
        let mut vs = check_file(f.text.as_str(), f.path.as_str());
        let ghost old_out = out.deep_view();
        let ghost gvs = vs.deep_view();
        out.append(&mut vs);
        assert(out.deep_view() =~= old_out + gvs);
        assert(out.deep_view() == scan_upto(gf, i + 1 as int));
        i = i + 1;
    }
    out
}

} // verus!
