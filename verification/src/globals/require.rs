//! The module resolver and loader behind `require`.
//!
//! Resolution walks a cursor over the module hierarchy; every filesystem
//! answer comes in as a [`Probe`] taken by the caller at the position the step
//! arrives at.
//!
//! A position is a string of bytes, its segments parted by [`SEPARATOR`]. The
//! steps are rules on those bytes and on nothing else: a step reads no
//! filesystem and gives no meaning to a dot. Positions are meant to be in
//! normal form ([`normal`]): empty, the root, or without empty segment. The
//! canonical form of a path is in normal form, and a step by a plain segment
//! and a step up keep the form. On a position outside the normal form the
//! rules apply to the bytes as they stand: an empty segment counts as a
//! segment. Loading shares one in-flight load among all coroutines that
//! ask for the same chunk, through the [`PendingLoads`] table.

use vstd::prelude::*;
use vstd::std_specs::convert::FromSpecImpl;
use vstd::string::StringSliceAdditionalSpecFns;
use vstd::string::StrSliceExecFns;
use vstd::utf8::valid_utf8;
use crate::bytes;
use crate::luau::stack::text_of;
use crate::luau::stack::ArgumentError;
use crate::luau::ffi::luarequire_NavigateResult;
use crate::luau::ffi::luarequire_WriteResult;

verus! {

/// The byte that separates the segments of a module path.
pub const SEPARATOR: u8 = 47;

/// Why a navigation step did not arrive at a module.
#[derive(Debug, Clone, Copy, PartialEq, Eq, Structural)]
pub enum Reason {
    NotFound,
    Ambiguous,
}

impl From<Result<(), Reason>> for luarequire_NavigateResult {
    fn from(value: Result<(), Reason>) -> (r: luarequire_NavigateResult) {
        match value {
            Ok(()) => luarequire_NavigateResult::NAVIGATE_SUCCESS,
            Err(Reason::NotFound) => luarequire_NavigateResult::NAVIGATE_NOT_FOUND,
            Err(Reason::Ambiguous) => luarequire_NavigateResult::NAVIGATE_AMBIGUOUS,
        }
    }
}

impl FromSpecImpl<Result<(), Reason>> for luarequire_NavigateResult {
    open spec fn obeys_from_spec() -> bool {
        true
    }

    open spec fn from_spec(value: Result<(), Reason>) -> luarequire_NavigateResult {
        match value {
            Ok(_) => luarequire_NavigateResult::NAVIGATE_SUCCESS,
            Err(Reason::NotFound) => luarequire_NavigateResult::NAVIGATE_NOT_FOUND,
            Err(Reason::Ambiguous) => luarequire_NavigateResult::NAVIGATE_AMBIGUOUS,
        }
    }
}

/// A string of the engine as text. One that is not valid UTF-8 is an error
/// of its own, raised into the calling coroutine.
pub fn ptr_to_str(bytes: &[u8]) -> (r: Result<&str, ArgumentError>)
    ensures
        valid_utf8(bytes@) ==> r is Ok && r->Ok_0.spec_bytes() == bytes@,
        !valid_utf8(bytes@) ==> r is Err && r->Err_0.message@ == "non-utf8 string".spec_bytes(),
{
    match text_of(bytes) {
        Some(text) => Ok(text),
        None => Err(ArgumentError { message: "non-utf8 string".as_bytes_vec() }),
    }
}

/// A path of the filesystem as text. One that is not valid UTF-8 is an error
/// of its own, raised into the calling coroutine.
pub fn path_to_str(path: &[u8]) -> (r: Result<&str, ArgumentError>)
    ensures
        valid_utf8(path@) ==> r is Ok && r->Ok_0.spec_bytes() == path@,
        !valid_utf8(path@) ==> r is Err && r->Err_0.message@ == "non-utf8 path".spec_bytes(),
{
    match text_of(path) {
        Some(text) => Ok(text),
        None => Err(ArgumentError { message: "non-utf8 path".as_bytes_vec() }),
    }
}

/// What the filesystem holds at one cursor position.
#[derive(Debug, Clone, Copy, PartialEq, Eq, Structural)]
pub struct Probe {
    /// The position with the source suffix is a regular file.
    pub file: bool,
    /// The position is a directory that holds an init file.
    pub init: bool,
    /// The position is a directory.
    pub directory: bool,
}

impl Probe {
    /// A module can be loaded from the position, in one form or the other.
    pub open spec fn present(self) -> bool {
        self.file || self.init
    }

    /// Both module forms exist at the position.
    pub open spec fn ambiguous(self) -> bool {
        self.file && self.init
    }

    /// The position holds a module file or a directory that can bear modules.
    pub open spec fn located(self) -> bool {
        self.file || self.init || self.directory
    }
}

/// The file form of the module at position `p`.
pub open spec fn file_form(p: Seq<u8>) -> Seq<u8> {
    p + ".luau".spec_bytes()
}

/// The directory-with-init form of the module at position `p`.
pub open spec fn init_form(p: Seq<u8>) -> Seq<u8> {
    p + "/init.luau".spec_bytes()
}

/// The configuration file of the directory at position `p`.
pub open spec fn config_form(p: Seq<u8>) -> Seq<u8> {
    p + "/.luaurc".spec_bytes()
}

/// The position that a chunk name stands for: the name without the source
/// suffix and without a trailing init segment.
pub open spec fn base_of(chunkname: Seq<u8>) -> Seq<u8> {
    bytes::without_suffix(
        bytes::without_suffix(chunkname, ".luau".spec_bytes()),
        "/init".spec_bytes(),
    )
}

/// The position reached from `p` by the segment `name`: an absolute name
/// replaces the position, any other is appended behind one separator.
pub open spec fn child_of(p: Seq<u8>, name: Seq<u8>) -> Seq<u8> {
    if name.len() > 0 && name[0] == SEPARATOR {
        name
    } else if p.len() == 0 || p.last() == SEPARATOR {
        p + name
    } else {
        p + seq![SEPARATOR] + name
    }
}

/// The index of the last separator in `p`, or -1 where it holds none.
pub open spec fn last_separator(p: Seq<u8>) -> int
    decreases p.len(),
{
    if p.len() == 0 {
        -1
    } else if p.last() == SEPARATOR {
        p.len() - 1
    } else {
        last_separator(p.drop_last())
    }
}

/// The position above `p`: `p` without its last segment. The empty position
/// and the root have none.
pub open spec fn parent_of(p: Seq<u8>) -> Option<Seq<u8>> {
    if p.len() == 0 || p == seq![SEPARATOR] {
        None
    } else if last_separator(p) < 0 {
        Some(Seq::empty())
    } else if last_separator(p) == 0 {
        Some(seq![SEPARATOR])
    } else {
        Some(p.subrange(0, last_separator(p)))
    }
}

/// A position is in normal form where it is empty, or the root, or has no
/// empty segment: no separator at its end and no two separators in a row.
pub open spec fn normal(p: Seq<u8>) -> bool {
    p.len() == 0 || p == seq![SEPARATOR] || (p.last() != SEPARATOR && forall|i: int|
        0 <= i < p.len() - 1 ==> !(#[trigger] p[i] == SEPARATOR && p[i + 1] == SEPARATOR))
}

/// A segment is plain where it is not empty and holds no separator.
pub open spec fn plain(name: Seq<u8>) -> bool {
    name.len() > 0 && !name.contains(SEPARATOR)
}

/// Whether the position `p` is in normal form.
pub fn is_normal(p: &[u8]) -> (is: bool)
    ensures
        is == normal(p@),
{
    let n: usize = p.len();
    if n == 0 {
        return true;
    }
    if n == 1 && p[0] == SEPARATOR {
        assert(p@ =~= seq![SEPARATOR]);
        return true;
    }
    assert(p@ != seq![SEPARATOR]) by {
        if p@ == seq![SEPARATOR] {
            assert(seq![SEPARATOR].len() == 1);
            assert(seq![SEPARATOR][0] == SEPARATOR);
        }
    }
    if p[n - 1] == SEPARATOR {
        return false;
    }
    let mut i: usize = 0;
    while i < n - 1
        invariant
            n == p@.len(),
            n >= 1,
            i <= n - 1,
            forall|k: int| 0 <= k < i ==> !(#[trigger] p@[k] == SEPARATOR && p@[k + 1] == SEPARATOR),
        decreases n - i,
    {
        if p[i] == SEPARATOR && p[i + 1] == SEPARATOR {
            return false;
        }
        i = i + 1;
    }
    true
}

/// Walking down by one plain segment and up again leads back: above the
/// child that a plain segment names below a position in normal form stands
/// the position itself.
pub proof fn lemma_parent_of_child(p: Seq<u8>, name: Seq<u8>)
    requires
        normal(p),
        plain(name),
    ensures
        parent_of(child_of(p, name)) == Some(p),
{
    assert(name[0] != SEPARATOR);
    let c = child_of(p, name);
    if p.len() == 0 {
        assert(c =~= name);
        assert(p =~= Seq::<u8>::empty());
        lemma_last_separator_absent(name);
        assert(c != seq![SEPARATOR]) by {
            if c == seq![SEPARATOR] {
                assert(seq![SEPARATOR][0] == SEPARATOR);
            }
        }
    } else if p == seq![SEPARATOR] {
        assert(seq![SEPARATOR].len() == 1);
        assert(seq![SEPARATOR][0] == SEPARATOR);
        assert(c =~= p + name);
        lemma_last_separator_behind(p, name);
        assert(last_separator(p) == 0);
        assert(c != seq![SEPARATOR]) by {
            if c == seq![SEPARATOR] {
                assert(c.len() == 1);
            }
        }
    } else {
        assert(c =~= (p + seq![SEPARATOR]) + name);
        lemma_last_separator_behind(p + seq![SEPARATOR], name);
        assert((p + seq![SEPARATOR]).last() == SEPARATOR);
        assert(last_separator(p + seq![SEPARATOR]) == p.len());
        assert(c.subrange(0, p.len() as int) =~= p);
        assert(c.len() > 1);
        assert(c != seq![SEPARATOR]) by {
            if c == seq![SEPARATOR] {
                assert(seq![SEPARATOR].len() == 1);
            }
        }
    }
}

/// A step down by a plain segment keeps the normal form.
pub proof fn lemma_child_is_normal(p: Seq<u8>, name: Seq<u8>)
    requires
        normal(p),
        plain(name),
    ensures
        normal(child_of(p, name)),
{
    assert(name[0] != SEPARATOR);
    assert(name[name.len() - 1] != SEPARATOR);
    let c = child_of(p, name);
    if p.len() == 0 {
        assert(c =~= name);
        assert forall|i: int| 0 <= i < c.len() - 1 implies !(#[trigger] c[i] == SEPARATOR && c[i
            + 1] == SEPARATOR) by {
            assert(name[i] != SEPARATOR);
        }
    } else if p == seq![SEPARATOR] {
        assert(seq![SEPARATOR].len() == 1);
        assert(seq![SEPARATOR][0] == SEPARATOR);
        assert(c =~= p + name);
        assert forall|i: int| 0 <= i < c.len() - 1 implies !(#[trigger] c[i] == SEPARATOR && c[i
            + 1] == SEPARATOR) by {
            assert(c[i + 1] == name[i]);
            assert(name[i] != SEPARATOR);
        }
    } else {
        let n = p.len() as int;
        assert(c =~= (p + seq![SEPARATOR]) + name);
        assert forall|i: int| 0 <= i < c.len() - 1 implies !(#[trigger] c[i] == SEPARATOR && c[i
            + 1] == SEPARATOR) by {
            if i < n - 1 {
                assert(c[i] == p[i] && c[i + 1] == p[i + 1]);
                assert(!(p[i] == SEPARATOR && p[i + 1] == SEPARATOR));
            } else if i == n - 1 {
                assert(c[i] == p[n - 1]);
            } else {
                assert(c[i + 1] == name[i - n]);
                assert(name[i - n] != SEPARATOR);
            }
        }
    }
}

/// A step up keeps the normal form.
pub proof fn lemma_parent_is_normal(p: Seq<u8>)
    requires
        normal(p),
        parent_of(p) is Some,
    ensures
        normal(parent_of(p)->0),
{
    let at = last_separator(p);
    lemma_last_separator_found(p);
    if at > 0 {
        let above = p.subrange(0, at);
        assert(p[at] == SEPARATOR);
        assert(above.last() == p[at - 1]);
        assert(!(p[at - 1] == SEPARATOR && p[at - 1 + 1] == SEPARATOR));
        assert forall|i: int| 0 <= i < above.len() - 1 implies !(#[trigger] above[i]
            == SEPARATOR && above[i + 1] == SEPARATOR) by {
            assert(above[i] == p[i] && above[i + 1] == p[i + 1]);
            assert(!(p[i] == SEPARATOR && p[i + 1] == SEPARATOR));
        }
    }
}

proof fn lemma_last_separator_found(s: Seq<u8>)
    ensures
        -1 <= last_separator(s) < s.len(),
        last_separator(s) >= 0 ==> s[last_separator(s)] == SEPARATOR,
    decreases s.len(),
{
    if s.len() > 0 && s.last() != SEPARATOR {
        lemma_last_separator_found(s.drop_last());
    }
}

proof fn lemma_last_separator_absent(s: Seq<u8>)
    requires
        !s.contains(SEPARATOR),
    ensures
        last_separator(s) == -1,
    decreases s.len(),
{
    if s.len() > 0 {
        assert(s[s.len() - 1] != SEPARATOR);
        assert forall|i: int| 0 <= i < s.drop_last().len() implies s.drop_last()[i]
            != SEPARATOR by {
            assert(s[i] != SEPARATOR);
        }
        lemma_last_separator_absent(s.drop_last());
    }
}

proof fn lemma_last_separator_behind(head: Seq<u8>, tail: Seq<u8>)
    requires
        !tail.contains(SEPARATOR),
    ensures
        last_separator(head + tail) == last_separator(head),
    decreases tail.len(),
{
    if tail.len() == 0 {
        assert(head + tail =~= head);
    } else {
        assert(tail[tail.len() - 1] != SEPARATOR);
        assert((head + tail).last() == tail.last());
        assert((head + tail).drop_last() =~= head + tail.drop_last());
        assert forall|i: int| 0 <= i < tail.drop_last().len() implies tail.drop_last()[i]
            != SEPARATOR by {
            assert(tail[i] != SEPARATOR);
        }
        lemma_last_separator_behind(head, tail.drop_last());
    }
}

/// The outcome of arriving at a position with the given probe, for a step
/// that must arrive at a module or a module-bearing directory.
pub open spec fn arrival(probe: Probe) -> Result<(), Reason> {
    if !probe.located() {
        Err(Reason::NotFound)
    } else if probe.ambiguous() {
        Err(Reason::Ambiguous)
    } else {
        Ok(())
    }
}

/// The two files that a module at `position` can live in: the file form
/// first, the directory-with-init form second.
pub fn forms_of(position: &[u8]) -> (forms: (Vec<u8>, Vec<u8>))
    ensures
        forms.0@ == file_form(position@),
        forms.1@ == init_form(position@),
{
    let first = bytes::concat(position, ".luau".as_bytes());
    let second = bytes::concat(position, "/init.luau".as_bytes());
    (first, second)
}

/// Where both module forms exist, arriving is ambiguous, whatever else the
/// probe holds: neither form is preferred.
pub proof fn lemma_both_forms_are_ambiguous(probe: Probe)
    requires
        probe.ambiguous(),
    ensures
        arrival(probe) == Err::<(), Reason>(Reason::Ambiguous),
{
}

/// The resolver's position in the module hierarchy.
#[derive(Debug)]
pub struct Current {
    path: Vec<u8>,
}

impl View for Current {
    type V = Seq<u8>;

    closed spec fn view(&self) -> Seq<u8> {
        self.path@
    }
}

impl Current {
    /// A cursor at the empty position.
    pub fn new() -> (cursor: Current)
        ensures
            cursor@ == Seq::<u8>::empty(),
    {
        Current { path: Vec::new() }
    }

    /// The position as bytes.
    pub fn as_str(&self) -> (path: &Vec<u8>)
        ensures
            path@ == self@,
    {
        &self.path
    }

    /// The two files a module at this position can live in: the file form
    /// first, the directory-with-init form second.
    pub fn possible_paths(&self) -> (forms: (Vec<u8>, Vec<u8>))
        ensures
            forms.0@ == file_form(self@),
            forms.1@ == init_form(self@),
    {
        forms_of(self.path.as_slice())
    }

    /// Whether a module is present at this position, given its probe.
    pub fn is_present(&self, probe: Probe) -> (present: bool)
        ensures
            present == probe.present(),
    {
        probe.file || probe.init
    }

    /// Whether both module forms are present at this position, given its probe.
    pub fn is_ambiguous(&self, probe: Probe) -> (both: bool)
        ensures
            both == probe.ambiguous(),
    {
        probe.file && probe.init
    }

    /// Moves to an aliased path. `canonical` is the canonical form of the
    /// path, or `None` where the path does not exist; `probe` is what the
    /// filesystem holds at the canonical path, and is read only where there
    /// is one. A path that does not exist is not found and leaves the cursor
    /// where it was; one at which both module forms exist is ambiguous.
    pub fn jump(&mut self, canonical: Option<Vec<u8>>, probe: Probe) -> (r: Result<(), Reason>)
        ensures
            canonical is None ==> r == Err::<(), Reason>(Reason::NotFound) && final(self)@ == old(
                self,
            )@,
            canonical is Some ==> final(self)@ == canonical->0@,
            canonical is Some && probe.ambiguous() ==> r == Err::<(), Reason>(Reason::Ambiguous),
            canonical is Some && !probe.ambiguous() ==> r is Ok,
    {
        match canonical {
            None => Err(Reason::NotFound),
            Some(path) => {
                self.path = path;
                if probe.file && probe.init {
                    Err(Reason::Ambiguous)
                } else {
                    Ok(())
                }
            },
        }
    }

    /// Moves to the position that the chunk name of a compiled module stands for.
    pub fn reset(&mut self, chunkname: &[u8])
        requires
            bytes::ends_with(chunkname@, ".luau".spec_bytes()),
        ensures
            final(self)@ == base_of(chunkname@),
    {
        let stem = bytes::strip_suffix(chunkname, ".luau".as_bytes());
        self.path = bytes::strip_suffix(stem.as_slice(), "/init".as_bytes());
    }

    /// The position above this one, if there is one.
    pub fn parent_path(&self) -> (above: Option<Vec<u8>>)
        ensures
            above is Some <==> parent_of(self@) is Some,
            above is Some ==> above->0@ == parent_of(self@)->0,
    {
        let n: usize = self.path.len();
        if n == 0 || (n == 1 && self.path[0] == SEPARATOR) {
            assert(n == 1 && self.path@[0] == SEPARATOR ==> self.path@ =~= seq![SEPARATOR]);
            return None;
        }
        assert(self.path@ != seq![SEPARATOR]) by {
            if self.path@ == seq![SEPARATOR] {
                assert(seq![SEPARATOR].len() == 1);
                assert(seq![SEPARATOR][0] == SEPARATOR);
            }
        }
        let mut i: usize = n;
        assert(self.path@.subrange(0, n as int) =~= self.path@);
        while i > 0 && self.path[i - 1] != SEPARATOR
            invariant
                i <= n,
                n == self.path@.len(),
                last_separator(self.path@) == last_separator(self.path@.subrange(0, i as int)),
            decreases i,
        {
            assert(self.path@.subrange(0, i as int).drop_last() =~= self.path@.subrange(0, i - 1));
            i = i - 1;
        }
        if i == 0 {
            Some(Vec::new())
        } else if i == 1 {
            let mut root: Vec<u8> = Vec::new();
            root.push(SEPARATOR);
            assert(root@ =~= seq![SEPARATOR]);
            Some(root)
        } else {
            Some(bytes::take(self.path.as_slice(), i - 1))
        }
    }

    /// Moves to the position above. `probe` is what the filesystem holds at
    /// that position; it is not read where there is no position above.
    pub fn parent(&mut self, probe: Probe) -> (r: Result<(), Reason>)
        ensures
            parent_of(old(self)@) is None ==> r == Err::<(), Reason>(Reason::NotFound) && final(self)@
                == old(self)@,
            parent_of(old(self)@) is Some ==> r == arrival(probe) && final(self)@ == parent_of(
                old(self)@,
            )->0,
    {
        match self.parent_path() {
            None => Err(Reason::NotFound),
            Some(above) => {
                self.path = above;
                settle(probe)
            },
        }
    }

    /// The position reached from this one by the segment `name`.
    pub fn child_path(&self, name: &[u8]) -> (below: Vec<u8>)
        ensures
            below@ == child_of(self@, name@),
    {
        let n: usize = self.path.len();
        if name.len() > 0 && name[0] == SEPARATOR {
            let whole = bytes::take(name, name.len());
            assert(name@.subrange(0, name.len() as int) =~= name@);
            whole
        } else if n == 0 || self.path[n - 1] == SEPARATOR {
            bytes::concat(self.path.as_slice(), name)
        } else {
            let mut below = bytes::take(self.path.as_slice(), n);
            assert(self.path@.subrange(0, n as int) =~= self.path@);
            below.push(SEPARATOR);
            bytes::append(&mut below, name);
            assert(below@ =~= self.path@ + seq![SEPARATOR] + name@);
            below
        }
    }

    /// Moves to the segment `name` below this position, whatever is found
    /// there. `probe` is what the filesystem holds at the new position.
    pub fn child(&mut self, name: &[u8], probe: Probe) -> (r: Result<(), Reason>)
        ensures
            final(self)@ == child_of(old(self)@, name@),
            r == arrival(probe),
    {
        self.path = self.child_path(name);
        settle(probe)
    }

    /// The configuration file of the directory at this position.
    pub fn config_path(&self) -> (path: Vec<u8>)
        ensures
            path@ == config_form(self@),
    {
        bytes::concat(self.path.as_slice(), "/.luaurc".as_bytes())
    }
}

/// The outcome of arriving at a position whose probe is `probe`: not found
/// where it holds neither a module nor a directory, ambiguous where both
/// module forms exist, never a preference of one form over the other.
pub fn settle(probe: Probe) -> (r: Result<(), Reason>)
    ensures
        r == arrival(probe),
{
    if !(probe.file || probe.init || probe.directory) {
        Err(Reason::NotFound)
    } else if probe.file && probe.init {
        Err(Reason::Ambiguous)
    } else {
        Ok(())
    }
}

/// What writing `content` into a buffer of `capacity` bytes reports, the size
/// it announces, and the bytes the buffer then holds.
pub open spec fn written(capacity: nat, content: Seq<u8>) -> (luarequire_WriteResult, nat, Seq<u8>) {
    if capacity < content.len() {
        (luarequire_WriteResult::WRITE_BUFFER_TOO_SMALL, content.len(), Seq::empty())
    } else {
        (luarequire_WriteResult::WRITE_SUCCESS, content.len(), content)
    }
}

/// The caller's buffer for one resolver string, with the size it can hold and
/// the size the resolver announces back.
#[derive(Debug)]
pub struct Writer {
    buffer: Vec<u8>,
    buffer_size: usize,
    size_out: usize,
}

impl Writer {
    /// A writer over an empty buffer that can hold `buffer_size` bytes.
    pub fn new(buffer_size: usize) -> (writer: Writer)
        ensures
            writer.capacity() == buffer_size,
            writer.announced() == 0,
            writer.contents() == Seq::<u8>::empty(),
    {
        Writer { buffer: Vec::new(), buffer_size, size_out: 0 }
    }

    /// How many bytes the buffer can hold.
    pub closed spec fn capacity(&self) -> nat {
        self.buffer_size as nat
    }

    /// The size announced to the caller by the last write.
    pub closed spec fn announced(&self) -> nat {
        self.size_out as nat
    }

    /// The bytes written into the buffer.
    pub closed spec fn contents(&self) -> Seq<u8> {
        self.buffer@
    }

    /// The size announced to the caller by the last write.
    pub fn size_out(&self) -> (size: usize)
        ensures
            size == self.announced(),
    {
        self.size_out
    }

    /// The bytes written into the buffer.
    pub fn as_slice(&self) -> (written: &[u8])
        ensures
            written@ == self.contents(),
    {
        self.buffer.as_slice()
    }

    /// Announces `size` as the size of the string to come, and says whether
    /// the buffer can hold it.
    pub fn set_size(&mut self, size: usize) -> (r: Result<(), ()>)
        ensures
            final(self).announced() == size,
            final(self).capacity() == old(self).capacity(),
            final(self).contents() == old(self).contents(),
            r is Err <==> old(self).capacity() < size,
    {
        self.size_out = size;
        if self.buffer_size < size {
            Err(())
        } else {
            Ok(())
        }
    }

    /// Writes `content`: announces its size, and fills the buffer where it
    /// can hold the whole of it. A buffer that is too small is left empty.
    pub fn write(&mut self, content: &[u8]) -> (r: luarequire_WriteResult)
        ensures
            final(self).capacity() == old(self).capacity(),
            (r, final(self).announced(), final(self).contents()) == written(
                old(self).capacity(),
                content@,
            ),
    {
        match self.set_size(content.len()) {
            Err(_) => {
                self.buffer = Vec::new();
                luarequire_WriteResult::WRITE_BUFFER_TOO_SMALL
            },
            Ok(_) => {
                self.buffer = bytes::take(content, content.len());
                assert(content@.subrange(0, content.len() as int) =~= content@);
                luarequire_WriteResult::WRITE_SUCCESS
            },
        }
    }
}

/// Whether requiring is allowed from the given chunk: always.
pub fn is_require_allowed(requirer_chunkname: &[u8]) -> (allowed: bool)
    ensures
        allowed,
{
    true
}

/// Whether a module is present at the cursor, given the probe of its position.
pub fn is_module_present(current: &Current, probe: Probe) -> (present: bool)
    ensures
        present == probe.present(),
{
    current.is_present(probe)
}

/// Writes the chunk name of the module at the cursor: its position.
pub fn get_chunkname(current: &Current, writer: &mut Writer) -> (r: luarequire_WriteResult)
    ensures
        final(writer).capacity() == old(writer).capacity(),
        (r, final(writer).announced(), final(writer).contents()) == written(
            old(writer).capacity(),
            current@,
        ),
{
    writer.write(current.as_str().as_slice())
}

/// Writes the name under which the module at the cursor is loaded: nothing.
/// The writer is left as it was.
pub fn get_loadname(writer: &mut Writer) -> (r: luarequire_WriteResult)
    ensures
        r == luarequire_WriteResult::WRITE_SUCCESS,
        final(writer).capacity() == old(writer).capacity(),
        final(writer).announced() == old(writer).announced(),
        final(writer).contents() == old(writer).contents(),
{
    luarequire_WriteResult::WRITE_SUCCESS
}

/// Writes the key under which the module at the cursor is cached: its chunk name.
pub fn get_cache_key(current: &Current, writer: &mut Writer) -> (r: luarequire_WriteResult)
    ensures
        final(writer).capacity() == old(writer).capacity(),
        (r, final(writer).announced(), final(writer).contents()) == written(
            old(writer).capacity(),
            current@,
        ),
{
    get_chunkname(current, writer)
}

/// Writes the configuration of the directory at the cursor, verbatim.
/// `config` is the content of its configuration file, or `None` where the
/// file could not be read; the writer is then left as it was.
pub fn get_config(writer: &mut Writer, config: Option<&[u8]>) -> (r: luarequire_WriteResult)
    ensures
        final(writer).capacity() == old(writer).capacity(),
        config is None ==> r == luarequire_WriteResult::WRITE_FAILURE && final(writer).announced()
            == old(writer).announced() && final(writer).contents() == old(writer).contents(),
        config is Some ==> (r, final(writer).announced(), final(writer).contents()) == written(
            old(writer).capacity(),
            config->0@,
        ),
{
    match config {
        None => luarequire_WriteResult::WRITE_FAILURE,
        Some(content) => writer.write(content),
    }
}

/// Probing with an empty buffer and writing again into one of the announced
/// size always succeeds, and then the buffer holds the whole content.
pub proof fn lemma_probe_then_fill(content: Seq<u8>)
    ensures
        written(0, content).1 == content.len(),
        written(written(0, content).1, content) == (
            luarequire_WriteResult::WRITE_SUCCESS,
            content.len(),
            content,
        ),
        content.len() > 0 ==> written(0, content).0
            == luarequire_WriteResult::WRITE_BUFFER_TOO_SMALL,
{
}

} // verus!
