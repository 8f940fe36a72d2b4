//! Reading the entries of a ZIP archive that is held in memory.

use crate::text::decimal;
use vstd::prelude::*;
use vstd::string::*;

verus! {

/// The number of entries of an archive, if `zip::ZipArchive::new` accepts its bytes; else what it
/// says.
pub uninterp spec fn zip_len(archive: Seq<u8>) -> Result<usize, Seq<char>>;

/// The name of an entry as `ZipFile::name` gives it; what is said where it cannot be decoded or
/// `ZipArchive::by_index` cannot open the entry.
pub uninterp spec fn zip_name(archive: Seq<u8>, index: usize) -> Result<Seq<char>, Seq<char>>;

/// The size that an entry declares; what is said where `ZipArchive::by_index` cannot open it.
pub uninterp spec fn zip_size(archive: Seq<u8>, index: usize) -> Result<u64, Seq<char>>;

/// The first bytes that decompression gives for an entry, at most `limit`; what is said where the
/// entry cannot be opened or what is read of it cannot be decompressed.
pub uninterp spec fn zip_data(archive: Seq<u8>, index: usize, limit: u64) -> Result<
    Seq<u8>,
    Seq<char>,
>;

/// The contents of a reply of bytes.
pub open spec fn data_view(data: Result<Vec<u8>, String>) -> Result<Seq<u8>, Seq<char>> {
    match data {
        Ok(bytes) => Ok(bytes@),
        Err(said) => Err(said@),
    }
}

/// The contents of a reply of text.
pub open spec fn name_view(name: Result<String, String>) -> Result<Seq<char>, Seq<char>> {
    match name {
        Ok(text) => Ok(text@),
        Err(said) => Err(said@),
    }
}

/// The contents of a reply of a number.
pub open spec fn number_view<T>(number: Result<T, String>) -> Result<T, Seq<char>> {
    match number {
        Ok(v) => Ok(v),
        Err(said) => Err(said@),
    }
}

/// `zip::ZipArchive::new` and `ZipArchive::len` on the bytes of an archive; an error is written out
/// with its causes, as `anyhow` does. The contract names the result.
#[verifier::external_body]
pub(crate) fn entry_count(archive: &[u8]) -> (r: Result<usize, String>)
    ensures
        number_view(r) == zip_len(archive@),
{
    let read = || -> anyhow::Result<usize> {
        Ok(zip::ZipArchive::new(std::io::Cursor::new(archive))?.len())
    };
    read().map_err(|error| format!("{error:#}"))
}

/// `ZipArchive::by_index` and `ZipFile::name`; an error is written out with its causes, as `anyhow`
/// does. The contract names the result.
#[verifier::external_body]
pub(crate) fn entry_name(archive: &[u8], index: usize) -> (r: Result<String, String>)
    ensures
        name_view(r) == zip_name(archive@, index),
{
    let read = || -> anyhow::Result<String> {
        let mut zip = zip::ZipArchive::new(std::io::Cursor::new(archive))?;
        let file = zip.by_index(index)?;
        Ok(file.name()?.to_string())
    };
    read().map_err(|error| format!("{error:#}"))
}

/// `ZipArchive::by_index` and `ZipFile::size`; an error is written out with its causes, as `anyhow`
/// does. The contract names the result.
#[verifier::external_body]
pub(crate) fn entry_size(archive: &[u8], index: usize) -> (r: Result<u64, String>)
    ensures
        number_view(r) == zip_size(archive@, index),
{
    let read = || -> anyhow::Result<u64> {
        let mut zip = zip::ZipArchive::new(std::io::Cursor::new(archive))?;
        let file = zip.by_index(index)?;
        Ok(file.size())
    };
    read().map_err(|error| format!("{error:#}"))
}

/// `ZipArchive::by_index` and a decompressing read that stops at `limit` bytes; an error is written
/// out with its causes, as `anyhow` does. The contract names the result.
#[verifier::external_body]
pub(crate) fn entry_data(archive: &[u8], index: usize, limit: u64) -> (r: Result<Vec<u8>, String>)
    ensures
        data_view(r) == zip_data(archive@, index, limit),
{
    let read = || -> anyhow::Result<Vec<u8>> {
        let mut zip = zip::ZipArchive::new(std::io::Cursor::new(archive))?;
        let file = zip.by_index(index)?;
        let mut out = Vec::new();
        std::io::Read::read_to_end(&mut std::io::Read::take(file, limit), &mut out)?;
        Ok(out)
    };
    read().map_err(|error| format!("{error:#}"))
}

/// A character that some systems do not allow in file names.
pub open spec fn barred_char(c: char) -> bool {
    ||| (c as u32) < 0x20
    ||| c as u32 == 0x7f
    ||| c == '<' || c == '>' || c == ':' || c == '"' || c == '/' || c == '\\' || c == '|' || c
        == '?' || c == '*'
}

/// How many 16-bit units a name takes in UTF-16.
pub open spec fn utf16_len(name: Seq<char>) -> nat
    decreases name.len(),
{
    if name.len() == 0 {
        0
    } else {
        utf16_len(name.drop_last()) + if name.last() as u32 >= 0x1_0000 {
            2nat
        } else {
            1nat
        }
    }
}

/// How many characters from `from` on stand before the first `.`, counted from the start.
pub open spec fn stem_len(name: Seq<char>, from: nat) -> nat
    decreases name.len() - from,
{
    if from >= name.len() || name[from as int] == '.' {
        from
    } else {
        stem_len(name, from + 1)
    }
}

/// A text without the spaces at its end.
pub open spec fn without_spaces(text: Seq<char>) -> Seq<char>
    decreases text.len(),
{
    if text.len() > 0 && text.last() == ' ' {
        without_spaces(text.drop_last())
    } else {
        text
    }
}

/// The number of a serial or parallel port: a digit but 0, or a superscript 1, 2 or 3. Of a
/// character, its lowest byte is looked at.
pub open spec fn port_number(c: char) -> bool {
    ||| 0x31 <= c as u32 % 256 <= 0x39
    ||| c as u32 == 0xb9
    ||| c as u32 == 0xb2
    ||| c as u32 == 0xb3
}

/// The part before the first `.`, without spaces at its end, is a name that some systems keep for a
/// device, in capitals or not.
pub open spec fn device_name(name: Seq<char>) -> bool {
    let stem = crate::text::lowered(without_spaces(name.take(stem_len(name, 0) as int)));
    ||| stem == "con"@
    ||| stem == "prn"@
    ||| stem == "aux"@
    ||| stem == "nul"@
    ||| stem == "conin$"@
    ||| stem == "conout$"@
    ||| stem == "clock$"@
    ||| stem.len() == 4 && (stem.take(3) == "com"@ || stem.take(3) == "lpt"@) && port_number(
        stem[3],
    )
}

/// A name that means the same file on every operating system: not longer than 255 units, without
/// the characters that are not allowed everywhere, without a `.` or a space at its end, and not that
/// of a device.
pub open spec fn plain_name(name: Seq<char>) -> bool {
    &&& name.len() > 0
    &&& utf16_len(name) <= 255
    &&& forall|i: int| 0 <= i < name.len() ==> !barred_char(#[trigger] name[i])
    &&& name.last() != '.' && name.last() != ' '
    &&& !device_name(name)
}

/// The parts of the first `n` characters of a path, which `/` separates.
pub open spec fn parts_before(path: Seq<char>, n: nat) -> Seq<Seq<char>>
    decreases n,
{
    if n == 0 {
        seq![Seq::empty()]
    } else {
        let before = parts_before(path, (n - 1) as nat);
        if path[n - 1] == '/' {
            before.push(Seq::empty())
        } else {
            before.drop_last().push(before.last().push(path[n - 1]))
        }
    }
}

/// The parts of a path.
pub open spec fn path_parts(path: Seq<char>) -> Seq<Seq<char>> {
    parts_before(path, path.len())
}

/// A part that stays where it is: nothing between two `/`, or a `.`.
pub open spec fn stays(part: Seq<char>) -> bool {
    part.len() == 0 || part == seq!['.']
}

/// A part that leads out of its folder.
pub open spec fn leads_out(part: Seq<char>) -> bool {
    part == seq!['.', '.']
}

/// A path that is read alike on every operating system: it does not start with two `/`, and every
/// part stays, leads out or is a plain name.
pub open spec fn plain_path(path: Seq<char>) -> bool {
    &&& !(path.len() >= 2 && path[0] == '/' && path[1] == '/')
    &&& forall|i: int|
        0 <= i < path_parts(path).len() ==> stays(#[trigger] path_parts(path)[i]) || leads_out(
            path_parts(path)[i],
        ) || plain_name(path_parts(path)[i])
}

/// Where the first `n` parts of a path lead: the names on the way, nothing if it leaves the archive.
pub open spec fn resolved(parts: Seq<Seq<char>>, n: nat) -> Option<Seq<Seq<char>>>
    decreases n,
{
    if n == 0 {
        Some(Seq::empty())
    } else {
        match resolved(parts, (n - 1) as nat) {
            None => None,
            Some(way) => if stays(parts[n - 1]) {
                Some(way)
            } else if !leads_out(parts[n - 1]) {
                Some(way.push(parts[n - 1]))
            } else if way.len() > 0 {
                Some(way.drop_last())
            } else {
                None
            },
        }
    }
}

/// Where a path leads.
pub open spec fn destination(path: Seq<char>) -> Option<Seq<Seq<char>>> {
    resolved(path_parts(path), path_parts(path).len())
}

/// A path starts by leaving the archive.
pub open spec fn leaves_archive(path: Seq<char>) -> bool {
    leads_out(path_parts(path)[0])
}

/// What the archive reader makes of a stored name: a plain path is refused if it leaves the archive,
/// and else its file is the last name on the way, if there is one; any path that starts with `..` is
/// refused.
pub open spec fn file_name_follows(name: Seq<char>, path: Option<Option<String>>) -> bool {
    &&& plain_path(name) ==> match destination(name) {
        None => path is None,
        Some(way) => path matches Some(file) && match file {
            Some(text) => way.len() > 0 && text@ == way.last(),
            None => way.len() == 0,
        },
    }
    &&& leaves_archive(name) ==> path is None
}

/// The file name of an entry: `ZipArchive::by_index`, then `enclosed_name` (nothing for a path
/// that leaves the archive) and its last component (nothing if there is none or it is not UTF-8).
/// It fails where `by_index` does. A plain path that leaves the archive is refused; the file of any
/// other is the last name on its way. Any path that starts with `..` is refused. An entry whose name
/// cannot be decoded has no path. `enclosed_name` refuses other names on Windows only, and reads a
/// `\`, a drive letter and two `/` at the start of a path by the rules of Windows; nothing is
/// promised of such paths.
#[verifier::external_body]
pub(crate) fn entry_filename(archive: &[u8], index: usize) -> (r: Result<
    Option<Option<String>>,
    (),
>)
    ensures
        r is Err <==> zip_size(archive@, index) is Err,
        match zip_name(archive@, index) {
            Ok(name) => r matches Ok(path) && file_name_follows(name, path),
            Err(_) => r is Err || r == Ok::<Option<Option<String>>, ()>(None),
        },
{
    let mut zip = zip::ZipArchive::new(std::io::Cursor::new(archive)).map_err(|_| ())?;
    let file = zip.by_index(index).map_err(|_| ())?;
    Ok(
        file.enclosed_name().map(
            |path| path.file_name().and_then(|name| name.to_str()).map(|name| name.to_string()),
        ),
    )
}

/// Why an entry could not be read.
#[derive(Clone, Copy, Debug, PartialEq, Eq, Structural)]
pub enum EntryError {
    /// The entry cannot be opened.
    Open { index: usize },
    /// The first `limit` bytes of the entry cannot be decompressed.
    Read { index: usize, limit: u64 },
    /// The data of the entry ends early.
    Short,
    /// The entry is declared shorter than the part that is asked for.
    TooSmall { size: u64, expected: u64 },
}

impl EntryError {
    /// What the archive reader says of the failure.
    pub open spec fn cause_text(self, archive: Seq<u8>) -> Seq<char> {
        match self {
            EntryError::Open { index } => match zip_size(archive, index) {
                Err(said) => said,
                Ok(_) => Seq::empty(),
            },
            EntryError::Read { index, limit } => match zip_data(archive, index, limit) {
                Err(said) => said,
                Ok(_) => Seq::empty(),
            },
            EntryError::Short => "failed to fill whole buffer"@,
            EntryError::TooSmall { size, expected } => {
                "got "@ + crate::text::decimal_text(size as nat) + " bytes, expected at least "@
                    + crate::text::decimal_text(expected as nat)
            },
        }
    }

    /// What failed, and why.
    pub open spec fn text(
        self,
        opening: Seq<char>,
        reading: Seq<char>,
        measuring: Seq<char>,
        archive: Seq<u8>,
    ) -> Seq<char> {
        (match self {
            EntryError::Open { index: _ } => opening,
            EntryError::Read { index: _, limit: _ } => reading,
            EntryError::Short => reading,
            EntryError::TooSmall { size: _, expected: _ } => measuring,
        }) + self.cause_text(archive)
    }

    /// The reason in words; the archive is the one that the error came from.
    pub fn cause(&self, archive: &[u8]) -> (r: String)
        ensures
            r@ == self.cause_text(archive@),
    {
        match self {
            EntryError::Open { index } => match entry_size(archive, *index) {
                Err(said) => said,
                Ok(_) => String::new(),
            },
            EntryError::Read { index, limit } => match entry_data(archive, *index, *limit) {
                Err(said) => said,
                Ok(_) => String::new(),
            },
            EntryError::Short => "failed to fill whole buffer".to_owned(),
            EntryError::TooSmall { size, expected } => {
                let mut s: String = "got ".to_owned();
                s.append(decimal(*size).as_str());
                s.append(" bytes, expected at least ");
                s.append(decimal(*expected).as_str());
                s
            },
        }
    }

    /// The error in words, behind what was being done: opening the entry, reading it, or looking at
    /// its size.
    pub fn message(&self, opening: &str, reading: &str, measuring: &str, archive: &[u8]) -> (r:
        String)
        ensures
            r@ == self.text(opening@, reading@, measuring@, archive@),
    {
        let mut s: String = match self {
            EntryError::Open { index: _ } => opening.to_owned(),
            EntryError::Read { index: _, limit: _ } => reading.to_owned(),
            EntryError::Short => reading.to_owned(),
            EntryError::TooSmall { size: _, expected: _ } => measuring.to_owned(),
        };
        s.append(self.cause(archive).as_str());
        s
    }
}

/// What was read of an entry, if it is as long as wanted.
pub open spec fn complete_data(
    data: Result<Seq<u8>, Seq<char>>,
    index: usize,
    wanted: u64,
) -> Result<Seq<u8>, EntryError> {
    match data {
        Ok(bytes) => if bytes.len() == wanted {
            Ok(bytes)
        } else {
            Err(EntryError::Short)
        },
        Err(_) => Err(EntryError::Read { index, limit: wanted }),
    }
}

/// A complete entry: as many bytes as it declares.
pub open spec fn whole_entry(archive: Seq<u8>, index: usize) -> Result<Seq<u8>, EntryError> {
    match zip_size(archive, index) {
        Ok(size) => complete_data(zip_data(archive, index, size), index, size),
        Err(_) => Err(EntryError::Open { index }),
    }
}

/// The first `prefix` bytes of an entry that declares at least so many.
pub open spec fn entry_prefix(archive: Seq<u8>, index: usize, prefix: u64) -> Result<
    Seq<u8>,
    EntryError,
> {
    match zip_size(archive, index) {
        Ok(size) => if size < prefix {
            Err(EntryError::TooSmall { size, expected: prefix })
        } else {
            complete_data(zip_data(archive, index, prefix), index, prefix)
        },
        Err(_) => Err(EntryError::Open { index }),
    }
}

pub open spec fn bytes_view(r: Result<Vec<u8>, EntryError>) -> Result<Seq<u8>, EntryError> {
    match r {
        Ok(v) => Ok(v@),
        Err(e) => Err(e),
    }
}

/// Accepts what was read of an entry when it is as long as wanted.
pub fn take_complete(data: Result<Vec<u8>, String>, index: usize, wanted: u64) -> (r: Result<
    Vec<u8>,
    EntryError,
>)
    ensures
        bytes_view(r) == complete_data(data_view(data), index, wanted),
{
    match data {
        Ok(bytes) => {
            if bytes.len() as u64 == wanted {
                Ok(bytes)
            } else {
                Err(EntryError::Short)
            }
        },
        Err(_) => Err(EntryError::Read { index, limit: wanted }),
    }
}

/// Reads a whole entry.
pub fn read_zip_entry(archive: &[u8], index: usize) -> (r: Result<Vec<u8>, EntryError>)
    ensures
        bytes_view(r) == whole_entry(archive@, index),
{
    match entry_size(archive, index) {
        Ok(size) => take_complete(entry_data(archive, index, size), index, size),
        Err(_) => Err(EntryError::Open { index }),
    }
}

/// Reads the first `prefix` bytes of an entry.
pub fn read_zip_entry_prefix(archive: &[u8], index: usize, prefix: u64) -> (r: Result<
    Vec<u8>,
    EntryError,
>)
    ensures
        bytes_view(r) == entry_prefix(archive@, index, prefix),
{
    match entry_size(archive, index) {
        Ok(size) => {
            if size < prefix {
                Err(EntryError::TooSmall { size, expected: prefix })
            } else {
                take_complete(entry_data(archive, index, prefix), index, prefix)
            }
        },
        Err(_) => Err(EntryError::Open { index }),
    }
}

} // verus!
