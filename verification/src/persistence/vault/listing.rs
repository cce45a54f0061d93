//! A readable listing of the vault: its logs as the guardian knows them, then
//! its directory as it was read.
use vstd::prelude::*;
use vstd::string::*;
use crate::persistence::vault::guardian::Guardian;
use crate::text;

verus! {

/// How many bytes of a log are shown.
pub const PREVIEW_BYTES: usize = 16;

/// What came back when a log was opened to show its first bytes.
#[derive(Debug)]
pub enum Preview {
    Contents(Vec<u8>),
    Unreadable(String),
}

/// A file in a directory of the vault. `preview` is what reading it gave.
#[derive(Debug)]
pub struct SubFile {
    pub name: String,
    pub size: u64,
    pub preview: Preview,
}

/// An entry of the vault's directory.
#[derive(Debug)]
pub enum VaultEntry {
    File { name: String },
    Dir { name: String, files: Vec<SubFile> },
}

/// "  LOG: `id` (`shards` shards, has_key=`has_key`)".
pub open spec fn log_line(id: Seq<char>, shards: nat, has_key: bool) -> Seq<char> {
    "  LOG: "@ + id + " ("@ + text::digits(shards) + " shards, has_key="@ + (if has_key {
        "true"@
    } else {
        "false"@
    }) + ")"@
}

/// "`name`(`size`B)".
pub open spec fn size_text(name: Seq<char>, size: u64) -> Seq<char> {
    name + "("@ + text::digits(size as nat) + "B)"@
}

/// The first bytes of a file in hexadecimal.
pub open spec fn preview_hex(data: Seq<u8>) -> Seq<char> {
    let shown = if data.len() < PREVIEW_BYTES {
        data
    } else {
        data.subrange(0, PREVIEW_BYTES as int)
    };
    text::joined(shown.map_values(|b: u8| text::hex_byte(b)), " "@)
}

/// The line that shows the beginning of a log.
pub open spec fn preview_line(file: SubFile) -> Seq<char> {
    match file.preview {
        Preview::Contents(data) => "RAW_BYTES("@ + file.name@ + "): ["@ + preview_hex(data@)
            + "] (total "@ + text::digits(data@.len()) + " bytes)"@,
        Preview::Unreadable(m) => "RAW_READ_ERR("@ + file.name@ + "): "@ + m@,
    }
}

/// The text ends with `suffix`.
pub open spec fn ends_with(s: Seq<char>, suffix: Seq<char>) -> bool {
    suffix.is_suffix_of(s)
}

/// The lines of a directory entry: a directory whose first file is a log shows
/// the beginning of that log before it is listed itself.
pub open spec fn entry_lines(entry: VaultEntry) -> Seq<Seq<char>> {
    match entry {
        VaultEntry::File { name } => seq!["FILE: "@ + name@],
        VaultEntry::Dir { name, files } => {
            let listed = "DIR: "@ + name@ + " -> ["@ + text::joined(
                files@.map_values(|f: SubFile| size_text(f.name@, f.size)),
                ", "@,
            ) + "]"@;
            if files@.len() > 0 && ends_with(files@[0].name@, ".recording"@) {
                seq![preview_line(files@[0]), listed]
            } else {
                seq![listed]
            }
        },
    }
}

/// The lines of several directory entries.
pub open spec fn entries_lines(entries: Seq<VaultEntry>) -> Seq<Seq<char>>
    decreases entries.len(),
{
    if entries.len() == 0 {
        Seq::empty()
    } else {
        entries_lines(entries.drop_last()) + entry_lines(entries.last())
    }
}

/// The lines about the guardian's logs, which are named in `ids`.
pub open spec fn log_lines(guardian: Guardian, ids: Seq<Seq<char>>) -> Seq<Seq<char>> {
    seq!["RECORDING_LOGS: "@ + text::digits(ids.len()) + " entries"@] + ids.map_values(
        |id: Seq<char>|
            log_line(
                id,
                guardian.recording_logs@[id].index@.dom().len(),
                guardian.content_keyring@.dom().contains(id),
            ),
    )
}

/// Every file and every directory of the vault has its line, whatever else there is, and
/// so has every log, in the order of the names.
pub proof fn law_everything_in_the_vault_is_listed(
    guardian: Guardian,
    ids: Seq<Seq<char>>,
    entries: Seq<VaultEntry>,
    i: int,
    k: int,
)
    requires
        0 <= i < entries.len(),
        0 <= k < ids.len(),
    ensures
        entries[i] matches VaultEntry::File { name } ==> entries_lines(entries).contains(
            "FILE: "@ + name@,
        ),
        entries[i] matches VaultEntry::Dir { name, files } ==> entries_lines(entries).contains(
            "DIR: "@ + name@ + " -> ["@ + text::joined(
                files@.map_values(|f: SubFile| size_text(f.name@, f.size)),
                ", "@,
            ) + "]"@,
        ),
        entries_lines(entries).len() >= entries.len(),
        log_lines(guardian, ids).len() == ids.len() + 1,
        log_lines(guardian, ids)[k + 1] == "  LOG: "@ + ids[k] + " ("@ + text::digits(
            guardian.recording_logs@[ids[k]].index@.dom().len(),
        ) + " shards, has_key="@ + (if guardian.content_keyring@.dom().contains(ids[k]) {
            "true"@
        } else {
            "false"@
        }) + ")"@,
    decreases entries.len(),
{
    let front = entries.drop_last();
    let lines = entries_lines(entries);
    let before = entries_lines(front);
    let own = entry_lines(entries.last());
    assert(own.len() >= 1);
    assert(lines[lines.len() - 1] == own[own.len() - 1]);
    if i < front.len() {
        law_everything_in_the_vault_is_listed(guardian, ids, front, i, k);
        assert forall|line: Seq<char>| before.contains(line) implies lines.contains(line) by {
            let at = before.index_of(line);
            assert(lines[at] == line);
        }
    } else if front.len() > 0 {
        law_everything_in_the_vault_is_listed(guardian, ids, front, 0, k);
    }
}

fn suffix_is(s: &str, suffix: &str) -> (b: bool)
    ensures
        b == ends_with(s@, suffix@),
{
    let n: usize = s.unicode_len();
    let k: usize = suffix.unicode_len();
    if n < k {
        return false;
    }
    s.substring_char(n - k, n).to_owned() == suffix.to_owned()
}

fn hex_preview(data: &Vec<u8>) -> (s: String)
    ensures
        s@ == preview_hex(data@),
{
    let mut parts: Vec<String> = Vec::new();
    let mut i: usize = 0;
    let ghost shown = if data@.len() < PREVIEW_BYTES {
        data@
    } else {
        data@.subrange(0, PREVIEW_BYTES as int)
    };
    while i < data.len() && i < PREVIEW_BYTES
        invariant
            i <= data@.len(),
            i <= PREVIEW_BYTES,
            parts@.len() == i,
            shown == (if data@.len() < PREVIEW_BYTES {
                data@
            } else {
                data@.subrange(0, PREVIEW_BYTES as int)
            }),
            forall|j: int| 0 <= j < i ==> (#[trigger] parts@[j])@ == text::hex_byte(shown[j]),
        decreases PREVIEW_BYTES - i,
    {
        parts.push(text::hex(data[i]));
        i += 1;
    }
    assert(text::views(parts@) =~= shown.map_values(|b: u8| text::hex_byte(b)));
    text::join_all(&parts, " ")
}

fn preview_text(file: &SubFile) -> (line: String)
    ensures
        line@ == preview_line(*file),
{
    match &file.preview {
        Preview::Contents(data) => {
            let mut line = text::join("RAW_BYTES(", file.name.as_str());
            line.append("): [");
            let shown = hex_preview(data);
            line.append(shown.as_str());
            line.append("] (total ");
            let total = text::decimal(data.len() as u64);
            line.append(total.as_str());
            line.append(" bytes)");
            line
        },
        Preview::Unreadable(m) => {
            let mut line = text::join("RAW_READ_ERR(", file.name.as_str());
            line.append("): ");
            line.append(m.as_str());
            line
        },
    }
}

fn push_entry(lines: &mut Vec<String>, entry: &VaultEntry)
    ensures
        text::views(final(lines)@) == text::views(old(lines)@) + entry_lines(*entry),
{
    let ghost before = text::views(lines@);
    match entry {
        VaultEntry::File { name } => {
            lines.push(text::join("FILE: ", name.as_str()));
            assert(text::views(lines@) =~= before + entry_lines(*entry));
        },
        VaultEntry::Dir { name, files } => {
            let mut sizes: Vec<String> = Vec::new();
            let mut i: usize = 0;
            while i < files.len()
                invariant
                    i <= files@.len(),
                    sizes@.len() == i,
                    forall|j: int|
                        0 <= j < i ==> (#[trigger] sizes@[j])@ == size_text(
                            files@[j].name@,
                            files@[j].size,
                        ),
                decreases files@.len() - i,
            {
                let mut item = text::join(files[i].name.as_str(), "(");
                let size = text::decimal(files[i].size);
                item.append(size.as_str());
                item.append("B)");
                sizes.push(item);
                i += 1;
            }
            assert(text::views(sizes@) =~= files@.map_values(
                |f: SubFile| size_text(f.name@, f.size),
            ));
            if files.len() > 0 && suffix_is(files[0].name.as_str(), ".recording") {
                lines.push(preview_text(&files[0]));
            }
            let mut listed = text::join("DIR: ", name.as_str());
            listed.append(" -> [");
            let all = text::join_all(&sizes, ", ");
            listed.append(all.as_str());
            listed.append("]");
            lines.push(listed);
            assert(text::views(lines@) =~= before + entry_lines(*entry));
        },
    }
}

/// The listing of the vault: its logs in the order of their names, then the
/// entries of its directory in the order in which they were read.
pub fn vault_listing(guardian: &Guardian, entries: &Vec<VaultEntry>) -> (lines: Vec<String>)
    requires
        guardian.wf(),
    ensures
        exists|ids: Seq<Seq<char>>|
            {
                &&& text::ascending(ids)
                &&& ids.to_set() == guardian.recording_logs@.dom()
                &&& text::views(lines@) == #[trigger] log_lines(*guardian, ids) + entries_lines(
                    entries@,
                )
            },
{
    let ids = guardian.list_recordings();
    let ghost names = text::views(ids@);
    let mut lines: Vec<String> = Vec::new();
    let count = text::decimal(ids.len() as u64);
    let mut head = text::join("RECORDING_LOGS: ", count.as_str());
    head.append(" entries");
    lines.push(head);
    let mut i: usize = 0;
    assert(text::views(lines@) =~= log_lines(*guardian, names).subrange(0, 1));
    while i < ids.len()
        invariant
            guardian.wf(),
            i <= ids@.len(),
            names == text::views(ids@),
            names.to_set() == guardian.recording_logs@.dom(),
            text::views(lines@) == log_lines(*guardian, names).subrange(0, i + 1),
        decreases ids@.len() - i,
    {
        let (shards, has_key) = guardian.debug_recording_info(&ids[i]);
        let mut line = text::join("  LOG: ", ids[i].as_str());
        line.append(" (");
        let number = text::decimal(shards as u64);
        line.append(number.as_str());
        line.append(" shards, has_key=");
        if has_key {
            line.append("true");
        } else {
            line.append("false");
        }
        line.append(")");
        proof {
            assert(names[i as int] == ids@[i as int]@);
            assert(names.to_set().contains(names[i as int]));
            assert(line@ == log_lines(*guardian, names)[i + 1]);
        }
        let ghost shown = text::views(lines@);
        let ghost added = line@;
        lines.push(line);
        i += 1;
        assert(text::views(lines@) =~= shown.push(added));
        assert(text::views(lines@) =~= log_lines(*guardian, names).subrange(0, i + 1));
    }
    assert(text::views(lines@) =~= log_lines(*guardian, names));
    let ghost logs = text::views(lines@);
    let mut k: usize = 0;
    assert(entries@.subrange(0, 0) =~= Seq::<VaultEntry>::empty());
    assert(logs + entries_lines(entries@.subrange(0, 0)) =~= logs);
    while k < entries.len()
        invariant
            k <= entries@.len(),
            text::views(lines@) == logs + entries_lines(entries@.subrange(0, k as int)),
        decreases entries@.len() - k,
    {
        push_entry(&mut lines, &entries[k]);
        k += 1;
        proof {
            assert(entries@.subrange(0, k as int).drop_last() =~= entries@.subrange(0, k - 1));
            assert(text::views(lines@) =~= logs + entries_lines(entries@.subrange(0, k as int)));
        }
    }
    assert(entries@.subrange(0, k as int) =~= entries@);
    lines
}

} // verus!
