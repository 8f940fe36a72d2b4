//! The container of a saved tensor dictionary: a ZIP archive with a pickled dictionary and its
//! binary arrays.

use crate::bytes::le_u32_vec;
use crate::name_match::{capture, fault_in_group, number_in_group, NumberFault};
use crate::pickle::ParsedPt;
use crate::text::{decimal, ends_with};
use crate::zip_file::{entry_count, entry_name, read_zip_entry, EntryError};
use vstd::prelude::*;

verus! {

/// Where arrays are stored, by number.
pub const STORAGE_PATTERN: &'static str = r"(?:^|/)data/(\d+)$";

/// Why a container cannot be read.
#[derive(Debug, Clone, Copy, PartialEq, Eq, Structural)]
pub enum PtError {
    Archive,
    Open { index: usize },
    Read { index: usize, error: EntryError },
    StorageNumber { index: usize, fault: NumberFault },
    NoPickle,
    StorageNotFound { id: usize },
    StorageMissing { id: usize },
    StorageLength { id: usize },
}

impl PtError {
    pub open spec fn text(self, container: Seq<u8>) -> Seq<char> {
        match self {
            PtError::Archive => "failed to open nested torch .pt zip: "@ + match crate::zip_file::zip_len(
                container,
            ) {
                Err(said) => said,
                Ok(_) => Seq::empty(),
            },
            PtError::Open { index } => match crate::zip_file::zip_name(container, index) {
                Err(said) => said,
                Ok(_) => Seq::empty(),
            },
            PtError::Read { index: _, error } => error.cause_text(container),
            PtError::StorageNumber { index: _, fault } => fault.text(),
            PtError::NoPickle => "torch .pt data.pkl not found"@,
            PtError::StorageNotFound { id } => "torch .pt storage data/"@
                + crate::text::decimal_text(id as nat) + " not found"@,
            PtError::StorageMissing { id } => "storage data/"@ + crate::text::decimal_text(
                id as nat,
            ) + " missing"@,
            PtError::StorageLength { id } => "storage data/"@ + crate::text::decimal_text(id as nat)
                + " byte count is not divisible by 4"@,
        }
    }

    /// The error in words; the container is the one that the error came from.
    pub fn message(&self, container: &[u8]) -> (r: String)
        ensures
            r@ == self.text(container@),
    {
        match self {
            PtError::Archive => {
                let mut s: String = "failed to open nested torch .pt zip: ".to_owned();
                if let Err(said) = entry_count(container) {
                    s.append(said.as_str());
                } else {
                    assert(s@ + Seq::<char>::empty() =~= s@);
                }
                s
            },
            PtError::Open { index } => match entry_name(container, *index) {
                Err(said) => said,
                Ok(_) => String::new(),
            },
            PtError::Read { index: _, error } => error.cause(container),
            PtError::StorageNumber { index: _, fault } => fault.message().to_owned(),
            PtError::NoPickle => "torch .pt data.pkl not found".to_owned(),
            PtError::StorageNotFound { id } => {
                let mut s: String = "torch .pt storage data/".to_owned();
                s.append(decimal(*id as u64).as_str());
                s.append(" not found");
                s
            },
            PtError::StorageMissing { id } => {
                let mut s: String = "storage data/".to_owned();
                s.append(decimal(*id as u64).as_str());
                s.append(" missing");
                s
            },
            PtError::StorageLength { id } => {
                let mut s: String = "storage data/".to_owned();
                s.append(decimal(*id as u64).as_str());
                s.append(" byte count is not divisible by 4");
                s
            },
        }
    }
}

/// What the first entries of a container hold.
pub struct PtScan {
    pub pkl: Option<Seq<u8>>,
    pub arrays: Seq<(usize, Seq<u8>)>,
}

/// What an entry of a container is.
#[derive(Debug, Clone, Copy, PartialEq, Eq, Structural)]
pub enum PtEntry {
    Pickle,
    Storage { id: usize },
    BadNumber { fault: NumberFault },
    Other,
}

/// What an entry is: the dictionary, an array with the number in the first group that the storage
/// pattern finds, or neither.
pub open spec fn entry_kind(name: Seq<char>, groups: Option<Seq<Option<Seq<char>>>>) -> PtEntry {
    if "data.pkl"@.is_suffix_of(name) {
        PtEntry::Pickle
    } else if groups is None {
        PtEntry::Other
    } else {
        match crate::name_match::group_number(groups, 1) {
            Some(id) => PtEntry::Storage { id },
            None => PtEntry::BadNumber { fault: crate::name_match::group_fault(groups, 1) },
        }
    }
}

pub open spec fn kind_of_entry(name: Seq<char>) -> PtEntry {
    entry_kind(name, crate::name_match::regex_captures(STORAGE_PATTERN@, name))
}

/// Says what an entry is, by its name and the groups that the storage pattern finds in it.
pub fn kind_from_groups(name: &str, groups: &Option<Vec<Option<String>>>) -> (r: PtEntry)
    ensures
        r == entry_kind(name@, crate::name_match::groups_view(*groups)),
{
    if ends_with(name, "data.pkl") {
        return PtEntry::Pickle;
    }
    if groups.is_none() {
        return PtEntry::Other;
    }
    match number_in_group(groups, 1) {
        Some(id) => PtEntry::Storage { id },
        None => PtEntry::BadNumber { fault: fault_in_group(groups, 1) },
    }
}

/// Says what an entry is, by its name.
fn classify_entry(name: &str) -> (r: PtEntry)
    ensures
        r == kind_of_entry(name@),
{
    kind_from_groups(name, &capture(STORAGE_PATTERN, name))
}

/// What the first `n` entries hold, or the first failure. A later dictionary replaces an earlier
/// one.
pub open spec fn pt_scan(archive: Seq<u8>, n: nat) -> Result<PtScan, PtError>
    decreases n,
{
    if n == 0 {
        Ok(PtScan { pkl: None, arrays: Seq::empty() })
    } else {
        let index = (n - 1) as usize;
        match pt_scan(archive, (n - 1) as nat) {
            Err(error) => Err(error),
            Ok(scan) => match crate::zip_file::zip_name(archive, index) {
                Err(_) => Err(PtError::Open { index }),
                Ok(name) => {
                    let data = crate::zip_file::whole_entry(archive, index);
                    match kind_of_entry(name) {
                        PtEntry::Other => Ok(scan),
                        PtEntry::BadNumber { fault } => Err(PtError::StorageNumber { index, fault }),
                        PtEntry::Pickle => match data {
                            Err(error) => Err(PtError::Read { index, error }),
                            Ok(bytes) => Ok(PtScan { pkl: Some(bytes), arrays: scan.arrays }),
                        },
                        PtEntry::Storage { id } => match data {
                            Err(error) => Err(PtError::Read { index, error }),
                            Ok(bytes) => Ok(
                                PtScan { pkl: scan.pkl, arrays: scan.arrays.push((id, bytes)) },
                            ),
                        },
                    }
                },
            },
        }
    }
}

proof fn scan_failure_spreads(archive: Seq<u8>, n: nat, total: nat)
    requires
        n <= total,
        pt_scan(archive, n) is Err,
    ensures
        pt_scan(archive, total) == pt_scan(archive, n),
    decreases total - n,
{
    if n < total {
        scan_failure_spreads(archive, n, (total - 1) as nat);
    }
}

/// The last array of a number among the first `n`.
pub open spec fn last_array(arrays: Seq<(usize, Seq<u8>)>, n: nat, id: int) -> Option<Seq<u8>>
    decreases n,
{
    if n == 0 {
        None
    } else if arrays[n - 1].0 == id {
        Some(arrays[n - 1].1)
    } else {
        last_array(arrays, (n - 1) as nat, id)
    }
}

/// A later array has the same number.
pub open spec fn replaced(arrays: Seq<(usize, Seq<u8>)>, i: int) -> bool {
    exists|j: int| i < j < arrays.len() && (#[trigger] arrays[j]).0 == arrays[i].0
}

/// Different numbers among the arrays from `from` on.
pub open spec fn distinct_from(arrays: Seq<(usize, Seq<u8>)>, from: nat) -> nat
    decreases arrays.len() - from,
{
    if from >= arrays.len() {
        0
    } else {
        distinct_from(arrays, from + 1) + if replaced(arrays, from as int) {
            0nat
        } else {
            1nat
        }
    }
}

/// The arrays with the numbers from 0 on, as many as there are different numbers; the first that is
/// not there.
pub open spec fn arrays_before(arrays: Seq<(usize, Seq<u8>)>, n: nat) -> Result<
    Seq<Seq<u8>>,
    PtError,
>
    decreases n,
{
    if n == 0 {
        Ok(Seq::empty())
    } else {
        match arrays_before(arrays, (n - 1) as nat) {
            Err(error) => Err(error),
            Ok(list) => match last_array(arrays, arrays.len(), n - 1) {
                Some(bytes) => Ok(list.push(bytes)),
                None => Err(PtError::StorageNotFound { id: (n - 1) as usize }),
            },
        }
    }
}

proof fn array_failure_spreads(arrays: Seq<(usize, Seq<u8>)>, n: nat, total: nat)
    requires
        n <= total,
        arrays_before(arrays, n) is Err,
    ensures
        arrays_before(arrays, total) == arrays_before(arrays, n),
    decreases total - n,
{
    if n < total {
        array_failure_spreads(arrays, n, (total - 1) as nat);
    }
}

/// The contents of a container.
pub open spec fn parsed_pt(archive: Seq<u8>) -> Result<(Seq<u8>, Seq<Seq<u8>>), PtError> {
    match crate::zip_file::zip_len(archive) {
        Err(_) => Err(PtError::Archive),
        Ok(count) => match pt_scan(archive, count as nat) {
            Err(error) => Err(error),
            Ok(scan) => assembled_pt(scan),
        },
    }
}

/// A container needs a dictionary, and arrays numbered from 0 without a gap.
pub open spec fn assembled_pt(scan: PtScan) -> Result<(Seq<u8>, Seq<Seq<u8>>), PtError> {
    match scan.pkl {
        None => Err(PtError::NoPickle),
        Some(pkl) => match arrays_before(scan.arrays, distinct_from(scan.arrays, 0)) {
            Err(error) => Err(error),
            Ok(list) => Ok((pkl, list)),
        },
    }
}

pub open spec fn arrays_view(arrays: Seq<(usize, Vec<u8>)>) -> Seq<(usize, Seq<u8>)> {
    Seq::new(arrays.len(), |i: int| (arrays[i].0, arrays[i].1@))
}

pub open spec fn list_view(list: Seq<Vec<u8>>) -> Seq<Seq<u8>> {
    Seq::new(list.len(), |i: int| list[i]@)
}

fn copy_bytes(bytes: &Vec<u8>) -> (r: Vec<u8>)
    ensures
        r@ == bytes@,
{
    let mut out: Vec<u8> = Vec::new();
    for i in 0..bytes.len()
        invariant
            out@ == bytes@.take(i as int),
    {
        out.push(bytes[i]);
        assert(out@ =~= bytes@.take(i + 1));
    }
    assert(bytes@.take(bytes@.len() as int) =~= bytes@);
    out
}

fn count_distinct(arrays: &Vec<(usize, Vec<u8>)>) -> (r: usize)
    ensures
        r == distinct_from(arrays_view(arrays@), 0),
        r <= arrays@.len(),
{
    let ghost view = arrays_view(arrays@);
    let total: usize = arrays.len();
    let mut count: usize = 0;
    let mut from: usize = total;
    while from > 0
        invariant
            from <= total,
            total == arrays@.len(),
            view == arrays_view(arrays@),
            count == distinct_from(view, from as nat),
            count <= total - from,
        decreases from,
    {
        from = from - 1;
        let mut again: bool = false;
        let mut j: usize = from + 1;
        while j < total
            invariant
                from < j <= total,
                total == arrays@.len(),
                view == arrays_view(arrays@),
                again == (exists|k: int|
                    from < k < j && (#[trigger] view[k]).0 == view[from as int].0),
            decreases total - j,
        {
            if arrays[j].0 == arrays[from].0 {
                assert(view[j as int].0 == view[from as int].0);
                again = true;
            }
            j = j + 1;
        }
        if !again {
            count = count + 1;
        }
    }
    count
}

fn find_last_array(arrays: &Vec<(usize, Vec<u8>)>, id: usize) -> (r: Option<Vec<u8>>)
    ensures
        match r {
            Some(bytes) => last_array(arrays_view(arrays@), arrays@.len(), id as int) == Some(
                bytes@,
            ),
            None => last_array(arrays_view(arrays@), arrays@.len(), id as int) is None,
        },
{
    let ghost view = arrays_view(arrays@);
    let mut n: usize = arrays.len();
    while n > 0
        invariant
            n <= arrays@.len(),
            view == arrays_view(arrays@),
            last_array(view, arrays@.len(), id as int) == last_array(view, n as nat, id as int),
        decreases n,
    {
        if arrays[n - 1].0 == id {
            return Some(copy_bytes(&arrays[n - 1].1));
        }
        n = n - 1;
    }
    None
}

/// Puts the arrays in the order of their numbers.
fn order_arrays(arrays: &Vec<(usize, Vec<u8>)>) -> (r: Result<Vec<Vec<u8>>, PtError>)
    ensures
        ({
            let view = arrays_view(arrays@);
            match r {
                Ok(list) => arrays_before(view, distinct_from(view, 0)) == Ok::<
                    Seq<Seq<u8>>,
                    PtError,
                >(list_view(list@)),
                Err(error) => arrays_before(view, distinct_from(view, 0)) == Err::<
                    Seq<Seq<u8>>,
                    PtError,
                >(error),
            }
        }),
{
    let ghost view = arrays_view(arrays@);
    let count: usize = count_distinct(arrays);
    let mut list: Vec<Vec<u8>> = Vec::new();
    assert(list_view(list@) =~= Seq::empty());
    for id in 0..count
        invariant
            view == arrays_view(arrays@),
            count == distinct_from(view, 0),
            arrays_before(view, id as nat) == Ok::<Seq<Seq<u8>>, PtError>(list_view(list@)),
    {
        let ghost before = list@;
        match find_last_array(arrays, id) {
            Some(bytes) => {
                list.push(bytes);
                assert(list_view(list@) =~= list_view(before).push(bytes@));
            },
            None => {
                proof {
                    array_failure_spreads(view, (id + 1) as nat, count as nat);
                }
                return Err(PtError::StorageNotFound { id });
            },
        }
    }
    Ok(list)
}

impl ParsedPt {
    /// Reads a container.
    pub fn from_bytes(bytes: &[u8]) -> (r: Result<ParsedPt, PtError>)
        ensures
            match r {
                Ok(parsed) => parsed_pt(bytes@) == Ok::<(Seq<u8>, Seq<Seq<u8>>), PtError>(
                    (parsed.pkl@, list_view(parsed.storages@)),
                ),
                Err(error) => parsed_pt(bytes@) == Err::<(Seq<u8>, Seq<Seq<u8>>), PtError>(error),
            },
    {
        let count: usize = match entry_count(bytes) {
            Ok(count) => count,
            Err(_) => {
                return Err(PtError::Archive);
            },
        };
        let mut pkl: Option<Vec<u8>> = None;
        let mut arrays: Vec<(usize, Vec<u8>)> = Vec::new();
        assert(arrays_view(arrays@) =~= Seq::empty());
        for i in 0..count
            invariant
                crate::zip_file::zip_len(bytes@) == Ok::<usize, Seq<char>>(count),
                pt_scan(bytes@, i as nat) == Ok::<PtScan, PtError>(
                    PtScan {
                        pkl: match pkl {
                            Some(v) => Some(v@),
                            None => None,
                        },
                        arrays: arrays_view(arrays@),
                    },
                ),
        {
            let ghost before = arrays@;
            let name: String = match entry_name(bytes, i) {
                Ok(name) => name,
                Err(_) => {
                    proof {
                        scan_failure_spreads(bytes@, (i + 1) as nat, count as nat);
                    }
                    return Err(PtError::Open { index: i });
                },
            };
            match classify_entry(name.as_str()) {
                PtEntry::Other => {},
                PtEntry::BadNumber { fault } => {
                    proof {
                        scan_failure_spreads(bytes@, (i + 1) as nat, count as nat);
                    }
                    return Err(PtError::StorageNumber { index: i, fault });
                },
                PtEntry::Pickle => match read_zip_entry(bytes, i) {
                    Ok(data) => {
                        pkl = Some(data);
                    },
                    Err(error) => {
                        proof {
                            scan_failure_spreads(bytes@, (i + 1) as nat, count as nat);
                        }
                        return Err(PtError::Read { index: i, error });
                    },
                },
                PtEntry::Storage { id } => match read_zip_entry(bytes, i) {
                    Ok(data) => {
                        arrays.push((id, data));
                        assert(arrays_view(arrays@) =~= arrays_view(before).push((id, data@)));
                    },
                    Err(error) => {
                        proof {
                            scan_failure_spreads(bytes@, (i + 1) as nat, count as nat);
                        }
                        return Err(PtError::Read { index: i, error });
                    },
                },
            }
        }
        ParsedPt::from_parts(pkl, &arrays)
    }

    /// Puts together what a container holds: its dictionary, and its arrays with their numbers.
    pub fn from_parts(pkl: Option<Vec<u8>>, arrays: &Vec<(usize, Vec<u8>)>) -> (r: Result<
        ParsedPt,
        PtError,
    >)
        ensures
            ({
                let scan = PtScan {
                    pkl: match pkl {
                        Some(v) => Some(v@),
                        None => None,
                    },
                    arrays: arrays_view(arrays@),
                };
                match r {
                    Ok(parsed) => assembled_pt(scan) == Ok::<(Seq<u8>, Seq<Seq<u8>>), PtError>(
                        (parsed.pkl@, list_view(parsed.storages@)),
                    ),
                    Err(error) => assembled_pt(scan) == Err::<(Seq<u8>, Seq<Seq<u8>>), PtError>(
                        error,
                    ),
                }
            }),
    {
        let pkl: Vec<u8> = match pkl {
            Some(pkl) => pkl,
            None => {
                return Err(PtError::NoPickle);
            },
        };
        match order_arrays(arrays) {
            Ok(storages) => Ok(ParsedPt { pkl, storages }),
            Err(error) => Err(error),
        }
    }

    /// The numbers of an array.
    pub fn storage_f32(&self, id: usize) -> (r: Result<Vec<u32>, PtError>)
        ensures
            match r {
                Ok(values) => array_numbers(list_view(self.storages@), id as int) == Ok::<
                    Seq<u32>,
                    PtError,
                >(values@),
                Err(error) => array_numbers(list_view(self.storages@), id as int) == Err::<
                    Seq<u32>,
                    PtError,
                >(error),
            },
    {
        if id >= self.storages.len() {
            return Err(PtError::StorageMissing { id });
        }
        let bytes: &Vec<u8> = &self.storages[id];
        assert(list_view(self.storages@)[id as int] == bytes@);
        let total: usize = bytes.len();
        if total % 4 != 0 {
            return Err(PtError::StorageLength { id });
        }
        Ok(le_u32_vec(bytes.as_slice(), 0, total / 4))
    }
}

/// The numbers of an array: four bytes each.
pub open spec fn array_numbers(storages: Seq<Seq<u8>>, id: int) -> Result<Seq<u32>, PtError> {
    if id >= storages.len() {
        Err(PtError::StorageMissing { id: id as usize })
    } else if storages[id].len() % 4 != 0 {
        Err(PtError::StorageLength { id: id as usize })
    } else {
        Ok(crate::bytes::le_u32_run(storages[id], 0, storages[id].len() / 4))
    }
}

} // verus!
