//! The symbol resolver's interface, modelled as data.
//!
//! Resolution from an instruction address to a function name and source
//! line, and back, is the job of a separate debug-information service.  The
//! debugger core only consumes its answers, so here the resolver is a plain
//! table of address ranges: whoever builds the session fills it (or leaves
//! it empty, in which case every lookup is a miss, a normal non-fatal
//! outcome).  Lookups return the first matching entry.

use vstd::prelude::*;

verus! {

/// One resolved code range: the instructions of `[low, high)` belong to
/// function `name` at `file:line`.
pub struct SymEntry {
    /// First address of the range.
    pub low: usize,
    /// One past the last address of the range.
    pub high: usize,
    /// Name of the enclosing function.
    pub name: String,
    /// Source file of the range.
    pub file: String,
    /// Source line of the range.
    pub line: usize,
}

/// What an address resolves to.
pub struct Resolution {
    /// Name of the enclosing function.
    pub name: String,
    /// Source file.
    pub file: String,
    /// Source line.
    pub line: usize,
}

/// The address-to-source mapping handed to a debug session.
pub struct SymbolTable {
    entries: Vec<SymEntry>,
}

/// Whether entry `e` covers address `addr`.
pub open spec fn covers(e: SymEntry, addr: usize) -> bool {
    e.low <= addr < e.high
}

/// Index of the first entry from position `i` on that covers `addr`.
pub open spec fn first_cover_from(s: Seq<SymEntry>, addr: usize, i: int) -> Option<int>
    decreases s.len() - i,
{
    if !(0 <= i < s.len()) {
        None
    } else if covers(s[i], addr) {
        Some(i)
    } else {
        first_cover_from(s, addr, i + 1)
    }
}

/// Index of the first entry that covers `addr`.
pub open spec fn spec_resolve_address(s: Seq<SymEntry>, addr: usize) -> Option<int> {
    first_cover_from(s, addr, 0)
}

/// Index of the first entry from position `i` on recorded at source line
/// `line`.
pub open spec fn first_line_from(s: Seq<SymEntry>, line: usize, i: int) -> Option<int>
    decreases s.len() - i,
{
    if !(0 <= i < s.len()) {
        None
    } else if s[i].line == line {
        Some(i)
    } else {
        first_line_from(s, line, i + 1)
    }
}

/// Index of the first entry from position `i` on whose function is named
/// `name`.
pub open spec fn first_name_from(s: Seq<SymEntry>, name: Seq<char>, i: int) -> Option<int>
    decreases s.len() - i,
{
    if !(0 <= i < s.len()) {
        None
    } else if s[i].name@ == name {
        Some(i)
    } else {
        first_name_from(s, name, i + 1)
    }
}

/// Whether `addr` resolves to the program's entry function, the well-known
/// top-level function named `main`.
pub open spec fn resolves_to_entry(s: Seq<SymEntry>, addr: usize) -> bool {
    match spec_resolve_address(s, addr) {
        Some(j) => s[j].name@ == "main"@,
        None => false,
    }
}

impl View for SymbolTable {
    type V = Seq<SymEntry>;

    closed spec fn view(&self) -> Seq<SymEntry> {
        self.entries@
    }
}

impl SymbolTable {
    /// A table with no entries: every lookup misses.
    pub fn new() -> (r: SymbolTable)
        ensures
            r@ == Seq::<SymEntry>::empty(),
    {
        let r = SymbolTable { entries: Vec::new() };
        proof {
            assert(r@ =~= Seq::<SymEntry>::empty());
        }
        r
    }

    /// Adds one resolved range at the end of the table.
    pub fn add_entry(&mut self, e: SymEntry)
        ensures
            final(self)@ == old(self)@.push(e),
    {
        self.entries.push(e);
    }

    /// Resolves an instruction address to the enclosing function and source
    /// position: the first entry whose range covers `addr`.
    pub fn resolve_address(&self, addr: usize) -> (r: Option<Resolution>)
        ensures
            match spec_resolve_address(self@, addr) {
                Some(j) => r matches Some(res) && res.name@ == self@[j].name@ && res.file@
                    == self@[j].file@ && res.line == self@[j].line,
                None => r is None,
            },
    {
        let n = self.entries.len();
        let mut i: usize = 0;
        while i < n
            invariant
                i <= n,
                n == self@.len(),
                spec_resolve_address(self@, addr) == first_cover_from(self@, addr, i as int),
            decreases n - i,
        {
            let e = &self.entries[i];
            if e.low <= addr && addr < e.high {
                return Some(
                    Resolution { name: e.name.clone(), file: e.file.clone(), line: e.line },
                );
            }
            i += 1;
        }
        None
    }

    /// Resolves a source line to an instruction address: the start of the
    /// first range recorded at that line.
    pub fn resolve_line(&self, line: usize) -> (r: Option<usize>)
        ensures
            match first_line_from(self@, line, 0) {
                Some(j) => r == Some(self@[j].low),
                None => r is None,
            },
    {
        let n = self.entries.len();
        let mut i: usize = 0;
        while i < n
            invariant
                i <= n,
                n == self@.len(),
                first_line_from(self@, line, 0) == first_line_from(self@, line, i as int),
            decreases n - i,
        {
            if self.entries[i].line == line {
                return Some(self.entries[i].low);
            }
            i += 1;
        }
        None
    }

    /// Resolves a function name to an instruction address: the start of the
    /// first range belonging to a function of that name.
    pub fn resolve_function(&self, name: &String) -> (r: Option<usize>)
        ensures
            match first_name_from(self@, name@, 0) {
                Some(j) => r == Some(self@[j].low),
                None => r is None,
            },
    {
        let n = self.entries.len();
        let mut i: usize = 0;
        while i < n
            invariant
                i <= n,
                n == self@.len(),
                first_name_from(self@, name@, 0) == first_name_from(self@, name@, i as int),
            decreases n - i,
        {
            if self.entries[i].name == *name {
                return Some(self.entries[i].low);
            }
            i += 1;
        }
        None
    }

    /// Whether `addr` lies in the program's entry function `main`, the stop
    /// condition of a stack walk.
    pub fn is_entry_addr(&self, addr: usize) -> (r: bool)
        ensures
            r == resolves_to_entry(self@, addr),
    {
        let n = self.entries.len();
        let mut i: usize = 0;
        let needle: String = "main".to_owned();
        while i < n
            invariant
                i <= n,
                n == self@.len(),
                needle@ == "main"@,
                spec_resolve_address(self@, addr) == first_cover_from(self@, addr, i as int),
            decreases n - i,
        {
            let e = &self.entries[i];
            if e.low <= addr && addr < e.high {
                return e.name == needle;
            }
            i += 1;
        }
        false
    }
}

} // verus!
