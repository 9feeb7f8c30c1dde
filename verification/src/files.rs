//! The file commands of the client: directory listings, file contents and
//! file transfers. Reading the file system is left to the caller, which
//! hands in what it found.
use vstd::prelude::*;
use crate::encoding::{base64_encode, spec_base64};
use crate::handlers::reply_view;
use crate::order::{lex_leq, sorted_strings, views};
use crate::paths::{file_name, file_name_of, join, join_path};
use crate::sizes::{format_size, size_text};
use crate::text::{decimal, fit_chars, lemma_utf8_len, pad_left, prefix_within_bytes, push_char, push_decimal, push_padded_left, utf8_len};

verus! {

/// One item of a directory listing as `read_dir` yielded it.
pub enum ListedEntry {
    /// The iterator's error, as text.
    Failed(String),
    /// An entry: its name, whether it is a directory, and, when its
    /// metadata could be read, its length and its modification time as
    /// `YYYY-MM-DD HH:MM` in local time (`None` when unknown).
    Entry { name: String, is_dir: bool, meta: Option<(u64, Option<String>)> },
}

/// The path that `ls` lists: `path` resolved against `cwd`, or `cwd`.
pub open spec fn ls_target(path: Option<Seq<char>>, cwd: Seq<char>) -> Seq<char> {
    match path {
        Some(p) => join_path(cwd, p),
        None => cwd,
    }
}

/// The path `ls` lists.
pub fn list_target(path: Option<&str>, cwd: &str) -> (r: String)
    ensures
        r@ == ls_target(match path {
            Some(p) => Some(p@),
            None => None,
        }, cwd@),
{
    match path {
        Some(p) => join(cwd, p),
        None => String::from_str(cwd),
    }
}

/// Whether an item goes with the directories.
pub open spec fn listed_dir(e: ListedEntry) -> bool {
    e matches ListedEntry::Entry { is_dir, .. } && is_dir
}

/// The line of an item: `  TYPE       SIZE  MODIFIED  NAME`.
pub open spec fn entry_line(e: ListedEntry) -> Seq<char> {
    match e {
        ListedEntry::Failed(err) => "  [ERROR] "@ + err@,
        ListedEntry::Entry { name, is_dir, meta } => {
            let (t, size, modified) = match meta {
                Some((len, m)) => (
                    if is_dir { "DIR "@ } else { "FILE"@ },
                    if is_dir { "-"@ } else { size_text(len as nat) },
                    match m {
                        Some(x) => x@,
                        None => "-"@,
                    },
                ),
                None => ("????"@, "-"@, "-"@),
            };
            "  "@ + t + " "@ + pad_left(size, 10) + "  "@ + modified + "  "@ + name@
        },
    }
}

/// The lines of the items that `keep` selects, in order.
pub open spec fn lines_where(es: Seq<ListedEntry>, dirs: bool) -> Seq<Seq<char>>
    decreases es.len(),
{
    if es.len() == 0 {
        Seq::empty()
    } else {
        let rest = lines_where(es.drop_last(), dirs);
        if listed_dir(es.last()) == dirs {
            rest.push(entry_line(es.last()))
        } else {
            rest
        }
    }
}

/// The lines, each followed by a newline.
pub open spec fn line_block(ls: Seq<Seq<char>>) -> Seq<char>
    decreases ls.len(),
{
    if ls.len() == 0 {
        Seq::empty()
    } else {
        line_block(ls.drop_last()) + ls.last() + "\n"@
    }
}

/// The end of a listing: the sorted directories, then the sorted files,
/// then the counts.
pub open spec fn listing_tail(dirs: Seq<Seq<char>>, files: Seq<Seq<char>>) -> Seq<char> {
    line_block(dirs.sort_by(lex_leq())) + line_block(files.sort_by(lex_leq())) + (if dirs.len()
        == 0 && files.len() == 0 {
        "  (empty directory)\n"@
    } else {
        Seq::empty()
    }) + "\n  "@ + decimal(dirs.len()) + " directories, "@ + decimal(files.len()) + " files"@
}

/// The listing of `target` holding `es`.
pub open spec fn ls_text(target: Seq<char>, es: Seq<ListedEntry>) -> Seq<char> {
    "Directory: "@ + target + "\n\n"@ + "  Type      Size  Modified          Name\n"@
        + "  ─────────────────────────────────────────\n"@ + listing_tail(
        lines_where(es, true),
        lines_where(es, false),
    )
}

/// The reply to `ls` for `target`, given whether it exists, whether it is a
/// directory, and what reading it gave.
pub open spec fn ls_reply(
    target: Seq<char>,
    exists: bool,
    is_dir: bool,
    listing: Result<Seq<ListedEntry>, Seq<char>>,
) -> Result<Seq<char>, Seq<char>> {
    if !exists {
        Err("Path does not exist: "@ + target)
    } else if !is_dir {
        Err("Not a directory: "@ + target)
    } else {
        match listing {
            Err(e) => Err("Cannot read directory: "@ + e),
            Ok(es) => Ok(ls_text(target, es)),
        }
    }
}

fn entry_line_exec(e: &ListedEntry) -> (r: String)
    ensures
        r@ == entry_line(*e),
{
    match e {
        ListedEntry::Failed(err) => {
            let mut s = String::from_str("  [ERROR] ");
            s.append(err.as_str());
            s
        },
        ListedEntry::Entry { name, is_dir, meta } => {
            let mut s = String::from_str("  ");
            match meta {
                Some((len, m)) => {
                    s.append(if *is_dir { "DIR " } else { "FILE" });
                    s.append(" ");
                    if *is_dir {
                        push_padded_left(&mut s, "-", 10);
                    } else {
                        let size = format_size(*len);
                        push_padded_left(&mut s, size.as_str(), 10);
                    }
                    s.append("  ");
                    match m {
                        Some(x) => s.append(x.as_str()),
                        None => s.append("-"),
                    }
                },
                None => {
                    s.append("????");
                    s.append(" ");
                    push_padded_left(&mut s, "-", 10);
                    s.append("  ");
                    s.append("-");
                },
            }
            s.append("  ");
            s.append(name.as_str());
            proof {
                assert(s@ =~= entry_line(*e));
            }
            s
        },
    }
}

/// Splits the items into directory lines and the other lines.
fn split_lines(es: &Vec<ListedEntry>) -> (r: (Vec<String>, Vec<String>))
    ensures
        views(r.0@) == lines_where(es@, true),
        views(r.1@) == lines_where(es@, false),
{
    let mut dirs: Vec<String> = Vec::new();
    let mut files: Vec<String> = Vec::new();
    let mut i: usize = 0;
    while i < es.len()
        invariant
            i <= es@.len(),
            views(dirs@) == lines_where(es@.take(i as int), true),
            views(files@) == lines_where(es@.take(i as int), false),
        decreases es.len() - i,
    {
        let line = entry_line_exec(&es[i]);
        let is_dir = match &es[i] {
            ListedEntry::Entry { is_dir, .. } => *is_dir,
            ListedEntry::Failed(_) => false,
        };
        proof {
            let s = es@.take(i + 1);
            assert(s.drop_last() =~= es@.take(i as int));
            assert(s.last() == es@[i as int]);
        }
        if is_dir {
            dirs.push(line);
            assert(views(dirs@) =~= lines_where(es@.take(i + 1), true));
            assert(views(files@) =~= lines_where(es@.take(i + 1), false));
        } else {
            files.push(line);
            assert(views(dirs@) =~= lines_where(es@.take(i + 1), true));
            assert(views(files@) =~= lines_where(es@.take(i + 1), false));
        }
        i = i + 1;
    }
    assert(es@.take(es@.len() as int) =~= es@);
    (dirs, files)
}

/// Appends each line followed by a newline.
fn push_block(out: &mut String, ls: &Vec<String>)
    ensures
        final(out)@ == old(out)@ + line_block(views(ls@)),
{
    let mut i: usize = 0;
    while i < ls.len()
        invariant
            i <= ls@.len(),
            out@ == old(out)@ + line_block(views(ls@).take(i as int)),
        decreases ls.len() - i,
    {
        out.append(ls[i].as_str());
        push_char(out, '\n');
        proof {
            let s = views(ls@).take(i + 1);
            assert(s.drop_last() =~= views(ls@).take(i as int));
            assert(s.last() == ls@[i as int]@);
            reveal_strlit("\n");
            assert(out@ =~= old(out)@ + line_block(s));
        }
        i = i + 1;
    }
    assert(views(ls@).take(ls@.len() as int) =~= views(ls@));
}

/// Appends the sorted directories, the sorted files and the counts.
fn push_listing_tail(out: &mut String, dirs: &Vec<String>, files: &Vec<String>)
    ensures
        final(out)@ == old(out)@ + listing_tail(views(dirs@), views(files@)),
{
    let sd = sorted_strings(dirs);
    let sf = sorted_strings(files);
    push_block(out, &sd);
    push_block(out, &sf);
    if dirs.len() == 0 && files.len() == 0 {
        out.append("  (empty directory)\n");
    }
    out.append("\n  ");
    push_decimal(out, dirs.len() as u64);
    out.append(" directories, ");
    push_decimal(out, files.len() as u64);
    out.append(" files");
    assert(out@ =~= old(out)@ + listing_tail(views(dirs@), views(files@)));
}

/// The reply to `ls`.
pub fn list_directory(
    target: &str,
    exists: bool,
    is_dir: bool,
    listing: Result<Vec<ListedEntry>, String>,
) -> (r: Result<String, String>)
    ensures
        reply_view(r) == ls_reply(target@, exists, is_dir, match listing {
            Ok(es) => Ok(es@),
            Err(e) => Err(e@),
        }),
{
    if !exists {
        let mut s = String::from_str("Path does not exist: ");
        s.append(target);
        return Err(s);
    }
    if !is_dir {
        let mut s = String::from_str("Not a directory: ");
        s.append(target);
        return Err(s);
    }
    match listing {
        Err(e) => {
            let mut s = String::from_str("Cannot read directory: ");
            s.append(e.as_str());
            Err(s)
        },
        Ok(es) => {
            let (dirs, files) = split_lines(&es);
            let mut out = String::from_str("Directory: ");
            out.append(target);
            out.append("\n\n");
            out.append("  Type      Size  Modified          Name\n");
            out.append("  ─────────────────────────────────────────\n");
            push_listing_tail(&mut out, &dirs, &files);
            assert(out@ =~= ls_text(target@, es@));
            Ok(out)
        },
    }
}

/// The line of an entry in the admin's own listing: its name, whether it is
/// a directory, and its length (0 when unknown).
pub open spec fn local_entry_line(e: (String, bool, u64)) -> Seq<char> {
    if e.1 {
        "  DIR  "@ + pad_left("-"@, 10) + "  "@ + e.0@
    } else {
        "  FILE "@ + pad_left(size_text(e.2 as nat), 10) + "  "@ + e.0@
    }
}

/// The lines of the entries whose directory flag is `dirs`.
pub open spec fn local_lines_where(es: Seq<(String, bool, u64)>, dirs: bool) -> Seq<Seq<char>>
    decreases es.len(),
{
    if es.len() == 0 {
        Seq::empty()
    } else {
        let rest = local_lines_where(es.drop_last(), dirs);
        if es.last().1 == dirs {
            rest.push(local_entry_line(es.last()))
        } else {
            rest
        }
    }
}

/// The admin's own listing of `path` holding the readable entries `es`.
pub open spec fn local_ls_reply(
    path: Seq<char>,
    exists: bool,
    listing: Result<Seq<(String, bool, u64)>, Seq<char>>,
) -> Result<Seq<char>, Seq<char>> {
    if !exists {
        Err("Path does not exist: "@ + path)
    } else {
        match listing {
            Err(e) => Err("Cannot read directory: "@ + e),
            Ok(es) => Ok(
                "Directory: "@ + path + "\n\n"@ + listing_tail(
                    local_lines_where(es, true),
                    local_lines_where(es, false),
                ),
            ),
        }
    }
}

/// The admin's own `ls`, given whether `path` exists and its readable
/// entries (name, is a directory, length).
pub fn local_list_dir(
    path: &str,
    exists: bool,
    listing: Result<Vec<(String, bool, u64)>, String>,
) -> (r: Result<String, String>)
    ensures
        reply_view(r) == local_ls_reply(path@, exists, match listing {
            Ok(es) => Ok(es@),
            Err(e) => Err(e@),
        }),
{
    if !exists {
        let mut s = String::from_str("Path does not exist: ");
        s.append(path);
        return Err(s);
    }
    match listing {
        Err(e) => {
            let mut s = String::from_str("Cannot read directory: ");
            s.append(e.as_str());
            Err(s)
        },
        Ok(es) => {
            let mut dirs: Vec<String> = Vec::new();
            let mut files: Vec<String> = Vec::new();
            let mut i: usize = 0;
            while i < es.len()
                invariant
                    i <= es@.len(),
                    views(dirs@) == local_lines_where(es@.take(i as int), true),
                    views(files@) == local_lines_where(es@.take(i as int), false),
                decreases es.len() - i,
            {
                let e = &es[i];
                let mut line = String::new();
                if e.1 {
                    line.append("  DIR  ");
                    push_padded_left(&mut line, "-", 10);
                } else {
                    line.append("  FILE ");
                    let size = format_size(e.2);
                    push_padded_left(&mut line, size.as_str(), 10);
                }
                line.append("  ");
                line.append(e.0.as_str());
                proof {
                    let s = es@.take(i + 1);
                    assert(s.drop_last() =~= es@.take(i as int));
                    assert(s.last() == es@[i as int]);
                    assert(line@ =~= local_entry_line(es@[i as int]));
                }
                if e.1 {
                    dirs.push(line);
                } else {
                    files.push(line);
                }
                assert(views(dirs@) =~= local_lines_where(es@.take(i + 1), true));
                assert(views(files@) =~= local_lines_where(es@.take(i + 1), false));
                i = i + 1;
            }
            assert(es@.take(es@.len() as int) =~= es@);
            let mut out = String::from_str("Directory: ");
            out.append(path);
            out.append("\n\n");
            push_listing_tail(&mut out, &dirs, &files);
            assert(out@ =~= "Directory: "@ + path@ + "\n\n"@ + listing_tail(
                local_lines_where(es@, true),
                local_lines_where(es@, false),
            ));
            Ok(out)
        },
    }
}

/// The most of a file that `cat` shows, in bytes.
pub const CAT_LIMIT: usize = 100000;

/// The reply to `cat` for `target`, given whether it exists, whether it is a
/// directory, and its text (`None` when it is not valid text).
pub open spec fn cat_reply(target: Seq<char>, exists: bool, is_dir: bool, content: Option<Seq<char>>) -> Result<Seq<char>, Seq<char>> {
    if !exists {
        Err("File not found: "@ + target)
    } else if is_dir {
        Err("'"@ + target + "' is a directory, not a file."@)
    } else {
        match content {
            None => Err("Binary file, cannot display."@),
            Some(c) => if utf8_len(c) > CAT_LIMIT {
                Ok(
                    c.take(fit_chars(c, CAT_LIMIT as int) as int)
                        + "\n\n... (file truncated, showing first 100KB of "@ + decimal(utf8_len(c))
                        + " total bytes)"@,
                )
            } else {
                Ok(c)
            },
        }
    }
}

/// The reply to `cat`.
pub fn show_file(target: &str, exists: bool, is_dir: bool, content: Option<String>) -> (r: Result<String, String>)
    requires
        content matches Some(c) ==> utf8_len(c@) <= usize::MAX,
    ensures
        reply_view(r) == cat_reply(target@, exists, is_dir, match content {
            Some(c) => Some(c@),
            None => None,
        }),
{
    if !exists {
        let mut s = String::from_str("File not found: ");
        s.append(target);
        return Err(s);
    }
    if is_dir {
        let mut s = String::from_str("'");
        s.append(target);
        s.append("' is a directory, not a file.");
        return Err(s);
    }
    match content {
        None => Err(String::from_str("Binary file, cannot display.")),
        Some(c) => {
            proof {
                lemma_utf8_len(c@);
            }
            let len = c.as_str().len();
            if len > CAT_LIMIT {
                let mut s = prefix_within_bytes(c.as_str(), CAT_LIMIT);
                s.append("\n\n... (file truncated, showing first 100KB of ");
                push_decimal(&mut s, len as u64);
                s.append(" total bytes)");
                Ok(s)
            } else {
                Ok(c)
            }
        },
    }
}

/// The path `download` and `cat` read: `path` resolved against `cwd`.
pub fn resolve(path: &str, cwd: &str) -> (r: String)
    ensures
        r@ == join_path(cwd@, path@),
{
    join(cwd, path)
}

/// The reply to `download` for `target`, given whether it exists, whether
/// it is a directory, and what reading it gave: the file's name and its
/// bytes in base64 after `FILE_TRANSFER:`.
pub open spec fn download_reply(target: Seq<char>, exists: bool, is_dir: bool, data: Result<Seq<u8>, Seq<char>>) -> Result<Seq<char>, Seq<char>> {
    if !exists {
        Err("File not found: "@ + target)
    } else if is_dir {
        Err("'"@ + target + "' is a directory, cannot download."@)
    } else {
        match data {
            Err(e) => Err("Failed to read file '"@ + target + "': "@ + e),
            Ok(bytes) => Ok(
                "FILE_TRANSFER:"@ + match file_name(target) {
                    Some(n) => n,
                    None => "download"@,
                } + ":"@ + spec_base64(bytes),
            ),
        }
    }
}

/// The reply to `download`.
pub fn download_file(target: &str, exists: bool, is_dir: bool, data: Result<Vec<u8>, String>) -> (r: Result<String, String>)
    ensures
        reply_view(r) == download_reply(target@, exists, is_dir, match data {
            Ok(d) => Ok(d@),
            Err(e) => Err(e@),
        }),
{
    if !exists {
        let mut s = String::from_str("File not found: ");
        s.append(target);
        return Err(s);
    }
    if is_dir {
        let mut s = String::from_str("'");
        s.append(target);
        s.append("' is a directory, cannot download.");
        return Err(s);
    }
    match data {
        Err(e) => {
            let mut s = String::from_str("Failed to read file '");
            s.append(target);
            s.append("': ");
            s.append(e.as_str());
            Err(s)
        },
        Ok(bytes) => {
            let name = match file_name_of(target) {
                Some(n) => n,
                None => String::from_str("download"),
            };
            let encoded = base64_encode(bytes.as_slice());
            let mut s = String::from_str("FILE_TRANSFER:");
            s.append(name.as_str());
            s.append(":");
            s.append(encoded.as_str());
            Ok(s)
        },
    }
}

/// The reply to `upload` of `filename` into `cwd`, given what writing
/// `data` there gave.
pub fn upload_file(filename: &str, data_len: usize, cwd: &str, written: Result<(), String>) -> (r: Result<String, String>)
    ensures
        reply_view(r) == match written {
            Ok(_) => Ok::<Seq<char>, Seq<char>>(
                "File '"@ + filename@ + "' uploaded successfully ("@ + decimal(data_len as nat)
                    + " bytes) to "@ + join_path(cwd@, filename@),
            ),
            Err(e) => Err("Failed to save uploaded file '"@ + join_path(cwd@, filename@) + "': "@ + e@),
        },
{
    let target = join(cwd, filename);
    match written {
        Ok(_) => {
            let mut s = String::from_str("File '");
            s.append(filename);
            s.append("' uploaded successfully (");
            push_decimal(&mut s, data_len as u64);
            s.append(" bytes) to ");
            s.append(target.as_str());
            Ok(s)
        },
        Err(e) => {
            let mut s = String::from_str("Failed to save uploaded file '");
            s.append(target.as_str());
            s.append("': ");
            s.append(e.as_str());
            Err(s)
        },
    }
}

} // verus!
