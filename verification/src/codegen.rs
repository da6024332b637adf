//! The C back end's output buffers: indented code, the declarations and definitions of types,
//! and the bookkeeping of array structs and function pointer typedefs already emitted.

use vstd::hash_map::StringHashMap;
use vstd::hash_set::StringHashSet;
use vstd::prelude::*;
use vstd::string::{StrSliceExecFns, StringExecFns};

use topo_sort::{SortResults, TopoSort};

verus! {

/// Spaces per indentation level.
pub const OUTPUT_INDENT_SPACES: usize = 4;

/// `n` spaces.
pub open spec fn spaces(n: nat) -> Seq<char> {
    Seq::new(n, |_i: int| ' ')
}

/// Whether two strings hold the same characters.
pub fn str_equal(a: &str, b: &str) -> (res: bool)
    ensures
        res == (a@ == b@),
{
    let n = a.unicode_len();
    if n != b.unicode_len() {
        return false;
    }
    let mut i: usize = 0;
    while i < n
        invariant
            n == a@.len(),
            n == b@.len(),
            i <= n,
            forall|j: int| 0 <= j < i ==> a@[j] == b@[j],
        decreases n - i,
    {
        if a.get_char(i) != b.get_char(i) {
            return false;
        }
        i = i + 1;
    }
    assert(a@ =~= b@);
    true
}

// ---------------------------------------------------------------------------------------------
// Indented code.
// ---------------------------------------------------------------------------------------------

/// A piece of generated code and the indentation level that new lines start at.
#[derive(Debug)]
pub struct CodeOutput {
    pub code: String,
    indent: usize,
}

impl Clone for CodeOutput {
    fn clone(&self) -> (res: Self)
        ensures
            res == *self,
    {
        CodeOutput { code: self.code.clone(), indent: self.indent }
    }
}

impl CodeOutput {
    /// The code so far.
    pub closed spec fn text(&self) -> Seq<char> {
        self.code@
    }

    /// The indentation level.
    pub closed spec fn level(&self) -> nat {
        self.indent as nat
    }

    /// The indentation level is held in a `usize`.
    pub proof fn lemma_level_fits(&self)
        ensures
            self.level() <= usize::MAX,
    {
    }

    pub fn new() -> (res: Self)
        ensures
            res.text() == Seq::<char>::empty(),
            res.level() == 0,
    {
        CodeOutput { code: String::new(), indent: 0 }
    }

    /// Appends the indentation of the current level.
    pub fn push_indent(&mut self)
        requires
            old(self).level() * OUTPUT_INDENT_SPACES <= usize::MAX,
        ensures
            final(self).text() == old(self).text() + spaces(old(self).level() * (OUTPUT_INDENT_SPACES as nat)),
            final(self).level() == old(self).level(),
    {
        let n = self.indent * OUTPUT_INDENT_SPACES;
        let ghost start = self.code@;
        let mut i: usize = 0;
        while i < n
            invariant
                i <= n,
                n == self.indent * OUTPUT_INDENT_SPACES,
                self.indent == old(self).indent,
                start == old(self).text(),
                self.code@ == start + spaces(i as nat),
            decreases n - i,
        {
            self.code.append(" ");
            proof {
                reveal_strlit(" ");
                assert(start + spaces(i as nat) + " "@ =~= start + spaces((i + 1) as nat));
            }
            i = i + 1;
        }
    }

    pub fn push(&mut self, string: &str)
        ensures
            final(self).text() == old(self).text() + string@,
            final(self).level() == old(self).level(),
    {
        self.code.append(string);
    }

    pub fn inc_indent(&mut self)
        requires
            old(self).level() < usize::MAX,
        ensures
            final(self).text() == old(self).text(),
            final(self).level() == old(self).level() + 1,
    {
        self.indent = self.indent + 1;
    }

    pub fn dec_indent(&mut self)
        requires
            old(self).level() > 0,
        ensures
            final(self).text() == old(self).text(),
            final(self).level() == old(self).level() - 1,
    {
        self.indent = self.indent - 1;
    }

    pub fn set_indent(&mut self, indent: usize)
        ensures
            final(self).text() == old(self).text(),
            final(self).level() == indent,
    {
        self.indent = indent;
    }
}

// ---------------------------------------------------------------------------------------------
// Names.
// ---------------------------------------------------------------------------------------------

/// The identifiers that C reserves and that a name of the source language may equal.
pub open spec fn is_c_keyword(s: Seq<char>) -> bool {
    ||| s == "alignas"@
    ||| s == "alignof"@
    ||| s == "auto"@
    ||| s == "constexpr"@
    ||| s == "goto"@
    ||| s == "inline"@
    ||| s == "nullptr"@
    ||| s == "register"@
    ||| s == "restrict"@
    ||| s == "signed"@
    ||| s == "sizeof"@
    ||| s == "static"@
    ||| s == "static_assert"@
    ||| s == "thread_local"@
    ||| s == "typedef"@
    ||| s == "typeof"@
    ||| s == "typeof_unqual"@
    ||| s == "unsigned"@
    ||| s == "volatile"@
    ||| s == "_Alignas"@
    ||| s == "_Alignof"@
    ||| s == "_Atomic"@
    ||| s == "_BitInt"@
    ||| s == "_Bool"@
    ||| s == "_Complex"@
    ||| s == "_Decimal128"@
    ||| s == "_Decimal32"@
    ||| s == "_Decimal64"@
    ||| s == "_Generic"@
    ||| s == "_Imaginary"@
    ||| s == "_Noreturn"@
    ||| s == "_Static_assert"@
    ||| s == "_Thread_local"@
}

fn c_keyword(s: &str) -> (res: bool)
    ensures
        res == is_c_keyword(s@),
{
    str_equal(s, "alignas") || str_equal(s, "alignof") || str_equal(s, "auto") || str_equal(s, "constexpr")
        || str_equal(s, "goto") || str_equal(s, "inline") || str_equal(s, "nullptr") || str_equal(s, "register")
        || str_equal(s, "restrict") || str_equal(s, "signed") || str_equal(s, "sizeof") || str_equal(s, "static")
        || str_equal(s, "static_assert") || str_equal(s, "thread_local") || str_equal(s, "typedef")
        || str_equal(s, "typeof") || str_equal(s, "typeof_unqual") || str_equal(s, "unsigned")
        || str_equal(s, "volatile") || str_equal(s, "_Alignas") || str_equal(s, "_Alignof")
        || str_equal(s, "_Atomic") || str_equal(s, "_BitInt") || str_equal(s, "_Bool") || str_equal(s, "_Complex")
        || str_equal(s, "_Decimal128") || str_equal(s, "_Decimal32") || str_equal(s, "_Decimal64")
        || str_equal(s, "_Generic") || str_equal(s, "_Imaginary") || str_equal(s, "_Noreturn")
        || str_equal(s, "_Static_assert") || str_equal(s, "_Thread_local")
}

/// The C name for a name of the source language: reserved words get a prefix.
pub open spec fn prepared(name: Seq<char>) -> Seq<char> {
    if is_c_keyword(name) {
        "__reserved_"@ + name
    } else {
        name
    }
}

/// The words that C reserves are prefixed with `__reserved_`: `alignas`, `alignof`, `auto`,
/// `constexpr`, `goto`, `inline`, `nullptr`, `register`, `restrict`, `signed`, `sizeof`,
/// `static`, `static_assert`, `thread_local`, `typedef`, `typeof`, `typeof_unqual`, `unsigned`,
/// `volatile`, `_Alignas`, `_Alignof`, `_Atomic`, `_BitInt`, `_Bool`, `_Complex`,
/// `_Decimal128`, `_Decimal32`, `_Decimal64`, `_Generic`, `_Imaginary`, `_Noreturn`,
/// `_Static_assert` and `_Thread_local`; every other name is kept as it is.
pub proof fn lemma_reserved_words()
    ensures
        prepared("alignas"@) == "__reserved_"@ + "alignas"@,
        prepared("alignof"@) == "__reserved_"@ + "alignof"@,
        prepared("auto"@) == "__reserved_"@ + "auto"@,
        prepared("constexpr"@) == "__reserved_"@ + "constexpr"@,
        prepared("goto"@) == "__reserved_"@ + "goto"@,
        prepared("inline"@) == "__reserved_"@ + "inline"@,
        prepared("nullptr"@) == "__reserved_"@ + "nullptr"@,
        prepared("register"@) == "__reserved_"@ + "register"@,
        prepared("restrict"@) == "__reserved_"@ + "restrict"@,
        prepared("signed"@) == "__reserved_"@ + "signed"@,
        prepared("sizeof"@) == "__reserved_"@ + "sizeof"@,
        prepared("static"@) == "__reserved_"@ + "static"@,
        prepared("static_assert"@) == "__reserved_"@ + "static_assert"@,
        prepared("thread_local"@) == "__reserved_"@ + "thread_local"@,
        prepared("typedef"@) == "__reserved_"@ + "typedef"@,
        prepared("typeof"@) == "__reserved_"@ + "typeof"@,
        prepared("typeof_unqual"@) == "__reserved_"@ + "typeof_unqual"@,
        prepared("unsigned"@) == "__reserved_"@ + "unsigned"@,
        prepared("volatile"@) == "__reserved_"@ + "volatile"@,
        prepared("_Alignas"@) == "__reserved_"@ + "_Alignas"@,
        prepared("_Alignof"@) == "__reserved_"@ + "_Alignof"@,
        prepared("_Atomic"@) == "__reserved_"@ + "_Atomic"@,
        prepared("_BitInt"@) == "__reserved_"@ + "_BitInt"@,
        prepared("_Bool"@) == "__reserved_"@ + "_Bool"@,
        prepared("_Complex"@) == "__reserved_"@ + "_Complex"@,
        prepared("_Decimal128"@) == "__reserved_"@ + "_Decimal128"@,
        prepared("_Decimal32"@) == "__reserved_"@ + "_Decimal32"@,
        prepared("_Decimal64"@) == "__reserved_"@ + "_Decimal64"@,
        prepared("_Generic"@) == "__reserved_"@ + "_Generic"@,
        prepared("_Imaginary"@) == "__reserved_"@ + "_Imaginary"@,
        prepared("_Noreturn"@) == "__reserved_"@ + "_Noreturn"@,
        prepared("_Static_assert"@) == "__reserved_"@ + "_Static_assert"@,
        prepared("_Thread_local"@) == "__reserved_"@ + "_Thread_local"@,
        forall|n: Seq<char>| #![trigger prepared(n)] n != "alignas"@ && n != "alignof"@ && n != "auto"@ && n != "constexpr"@ && n != "goto"@ && n != "inline"@ && n != "nullptr"@ && n != "register"@ && n != "restrict"@ && n != "signed"@ && n != "sizeof"@ && n != "static"@ && n != "static_assert"@ && n != "thread_local"@ && n != "typedef"@ && n != "typeof"@ && n != "typeof_unqual"@ && n != "unsigned"@ && n != "volatile"@ && n != "_Alignas"@ && n != "_Alignof"@ && n != "_Atomic"@ && n != "_BitInt"@ && n != "_Bool"@ && n != "_Complex"@ && n != "_Decimal128"@ && n != "_Decimal32"@ && n != "_Decimal64"@ && n != "_Generic"@ && n != "_Imaginary"@ && n != "_Noreturn"@ && n != "_Static_assert"@ && n != "_Thread_local"@ ==> prepared(n) == n,
{
}

/// A prepared name is never a C keyword: the prefix given to keywords starts with two
/// underscores, which no keyword does.
pub proof fn lemma_prepared_not_keyword(name: Seq<char>)
    ensures
        !is_c_keyword(prepared(name)),
{
    if is_c_keyword(name) {
        reveal_strlit("__reserved_");
        reveal_strlit("alignas");
        reveal_strlit("alignof");
        reveal_strlit("auto");
        reveal_strlit("constexpr");
        reveal_strlit("goto");
        reveal_strlit("inline");
        reveal_strlit("nullptr");
        reveal_strlit("register");
        reveal_strlit("restrict");
        reveal_strlit("signed");
        reveal_strlit("sizeof");
        reveal_strlit("static");
        reveal_strlit("static_assert");
        reveal_strlit("thread_local");
        reveal_strlit("typedef");
        reveal_strlit("typeof");
        reveal_strlit("typeof_unqual");
        reveal_strlit("unsigned");
        reveal_strlit("volatile");
        reveal_strlit("_Alignas");
        reveal_strlit("_Alignof");
        reveal_strlit("_Atomic");
        reveal_strlit("_BitInt");
        reveal_strlit("_Bool");
        reveal_strlit("_Complex");
        reveal_strlit("_Decimal128");
        reveal_strlit("_Decimal32");
        reveal_strlit("_Decimal64");
        reveal_strlit("_Generic");
        reveal_strlit("_Imaginary");
        reveal_strlit("_Noreturn");
        reveal_strlit("_Static_assert");
        reveal_strlit("_Thread_local");
        let p = prepared(name);
        assert(p[1] == '_');
    }
}

pub fn prepare_name(name: String) -> (res: String)
    ensures
        res@ == prepared(name@),
{
    if c_keyword(name.as_str()) {
        let mut res = String::from_str("__reserved_");
        res.append(name.as_str());
        res
    } else {
        name
    }
}

// ---------------------------------------------------------------------------------------------
// Numbers as text.
// ---------------------------------------------------------------------------------------------

pub open spec fn digit_char(d: nat) -> char {
    if d == 0 { '0' } else if d == 1 { '1' } else if d == 2 { '2' } else if d == 3 { '3' } else if d == 4 {
        '4'
    } else if d == 5 { '5' } else if d == 6 { '6' } else if d == 7 { '7' } else if d == 8 { '8' } else { '9' }
}

/// The decimal digits of `n`, most significant first.
pub open spec fn decimal(n: nat) -> Seq<char>
    decreases n,
{
    if n < 10 {
        seq![digit_char(n)]
    } else {
        decimal(n / 10) + seq![digit_char(n % 10)]
    }
}

fn digit_text(d: usize) -> (res: &'static str)
    requires
        d < 10,
    ensures
        res@ == seq![digit_char(d as nat)],
{
    proof {
        reveal_strlit("0");
        reveal_strlit("1");
        reveal_strlit("2");
        reveal_strlit("3");
        reveal_strlit("4");
        reveal_strlit("5");
        reveal_strlit("6");
        reveal_strlit("7");
        reveal_strlit("8");
        reveal_strlit("9");
    }
    match d {
        0 => "0",
        1 => "1",
        2 => "2",
        3 => "3",
        4 => "4",
        5 => "5",
        6 => "6",
        7 => "7",
        8 => "8",
        _ => "9",
    }
}

/// `n` written in decimal.
pub fn decimal_string(n: usize) -> (res: String)
    ensures
        res@ == decimal(n as nat),
    decreases n,
{
    if n < 10 {
        String::from_str(digit_text(n))
    } else {
        let mut res = decimal_string(n / 10);
        res.append(digit_text(n % 10));
        res
    }
}

// ---------------------------------------------------------------------------------------------
// Type declarations and definitions.
// ---------------------------------------------------------------------------------------------

/// The code that declares or defines a type, and the names of the types it needs before it.
pub struct TypeOutput {
    pub output: CodeOutput,
    pub dependencies: Vec<String>,
}

impl TypeOutput {
    /// The names this output depends on.
    pub open spec fn needs(&self) -> Set<Seq<char>> {
        Set::new(
            |x: Seq<char>| exists|i: int| 0 <= i < self.dependencies@.len() && self.dependencies@[i]@ == x,
        )
    }

    pub fn new(output: CodeOutput, dependencies: Vec<String>) -> (res: Self)
        ensures
            res.output == output,
            res.dependencies@ == dependencies@,
    {
        TypeOutput { output, dependencies }
    }

    /// An output that depends on nothing.
    pub fn independent(output: CodeOutput) -> (res: Self)
        ensures
            res.output == output,
            res.dependencies@ == Seq::<String>::empty(),
            res.needs() == Set::<Seq<char>>::empty(),
    {
        let res = TypeOutput { output, dependencies: Vec::new() };
        assert(res.needs() =~= Set::<Seq<char>>::empty());
        res
    }
}

// ---------------------------------------------------------------------------------------------
// Tables of type outputs.
// ---------------------------------------------------------------------------------------------

/// The map that a list of named outputs stands for: later entries win.
pub open spec fn entries_map(s: Seq<(String, TypeOutput)>) -> Map<Seq<char>, TypeOutput>
    decreases s.len(),
{
    if s.len() == 0 {
        Map::empty()
    } else {
        entries_map(s.drop_last()).insert(s.last().0@, s.last().1)
    }
}

/// No name occurs twice.
pub open spec fn distinct_names(s: Seq<(String, TypeOutput)>) -> bool {
    forall|i: int, j: int| 0 <= i < s.len() && 0 <= j < s.len() && i != j ==> s[i].0@ != s[j].0@
}

pub(crate) proof fn lemma_entries_dom(s: Seq<(String, TypeOutput)>, k: Seq<char>)
    ensures
        entries_map(s).dom().contains(k) <==> exists|i: int| 0 <= i < s.len() && s[i].0@ == k,
    decreases s.len(),
{
    if s.len() > 0 {
        lemma_entries_dom(s.drop_last(), k);
        if entries_map(s).dom().contains(k) && s.last().0@ != k {
            let i = choose|i: int| 0 <= i < s.drop_last().len() && s.drop_last()[i].0@ == k;
            assert(s[i].0@ == k);
        }
        if exists|i: int| 0 <= i < s.len() && s[i].0@ == k {
            let i = choose|i: int| 0 <= i < s.len() && s[i].0@ == k;
            if i < s.len() - 1 {
                assert(s.drop_last()[i].0@ == k);
            }
        }
    }
}

pub(crate) proof fn lemma_entries_at(s: Seq<(String, TypeOutput)>, i: int)
    requires
        distinct_names(s),
        0 <= i < s.len(),
    ensures
        entries_map(s).dom().contains(s[i].0@),
        entries_map(s)[s[i].0@] == s[i].1,
    decreases s.len(),
{
    if i < s.len() - 1 {
        lemma_entries_at(s.drop_last(), i);
        assert(s.drop_last()[i] == s[i]);
    }
}

pub(crate) proof fn lemma_entries_update(s: Seq<(String, TypeOutput)>, i: int, e: (String, TypeOutput))
    requires
        distinct_names(s),
        0 <= i < s.len(),
        s[i].0@ == e.0@,
    ensures
        entries_map(s.update(i, e)) == entries_map(s).insert(e.0@, e.1),
    decreases s.len(),
{
    let u = s.update(i, e);
    if i == s.len() - 1 {
        assert(u.drop_last() =~= s.drop_last());
        assert(entries_map(u) =~= entries_map(s).insert(e.0@, e.1));
    } else {
        assert(u.drop_last() =~= s.drop_last().update(i, e));
        lemma_entries_update(s.drop_last(), i, e);
        assert(s.last().0@ != e.0@);
        assert(entries_map(u) =~= entries_map(s).insert(e.0@, e.1));
    }
}

/// Declarations or definitions of types, by name.
pub struct OutputTable {
    entries: Vec<(String, TypeOutput)>,
}

impl View for OutputTable {
    type V = Map<Seq<char>, TypeOutput>;

    closed spec fn view(&self) -> Map<Seq<char>, TypeOutput> {
        entries_map(self.entries@)
    }
}

impl OutputTable {
    #[verifier::type_invariant]
    spec fn names_distinct(self) -> bool {
        distinct_names(self.entries@)
    }

    pub fn new() -> (res: Self)
        ensures
            res@ == Map::<Seq<char>, TypeOutput>::empty(),
    {
        OutputTable { entries: Vec::new() }
    }

    /// Sets the output of `name`, in place of any it had.
    pub fn insert(&mut self, name: String, value: TypeOutput)
        ensures
            final(self)@ == old(self)@.insert(name@, value),
    {
        proof { use_type_invariant(&*self); }
        let mut entries: Vec<(String, TypeOutput)> = Vec::new();
        std::mem::swap(&mut entries, &mut self.entries);
        let ghost before = entries@;
        let n = entries.len();
        let mut i: usize = 0;
        while i < n
            invariant
                n == entries.len(),
                i <= n,
                entries@ == before,
                before == old(self).entries@,
                distinct_names(before),
                forall|j: int| 0 <= j < i ==> before[j].0@ != name@,
            decreases n - i,
        {
            if str_equal(entries[i].0.as_str(), name.as_str()) {
                let ghost entry = (name, value);
                proof {
                    lemma_entries_update(before, i as int, entry);
                }
                entries.set(i, (name, value));
                proof {
                    assert forall|a: int, b: int|
                        0 <= a < entries@.len() && 0 <= b < entries@.len() && a != b implies entries@[a].0@
                        != entries@[b].0@ by {
                        if a != i && b != i {
                            assert(entries@[a] == before[a] && entries@[b] == before[b]);
                        } else if a == i {
                            assert(entries@[b] == before[b]);
                        } else {
                            assert(entries@[a] == before[a]);
                        }
                    }
                }
                self.entries = entries;
                return;
            }
            i = i + 1;
        }
        entries.push((name, value));
        proof {
            assert(entries@.drop_last() =~= before);
            assert forall|a: int, b: int|
                0 <= a < entries@.len() && 0 <= b < entries@.len() && a != b implies entries@[a].0@
                != entries@[b].0@ by {
                if a < n && b < n {
                    assert(entries@[a] == before[a] && entries@[b] == before[b]);
                } else if a < n {
                    assert(entries@[a] == before[a]);
                } else {
                    assert(entries@[b] == before[b]);
                }
            }
        }
        self.entries = entries;
    }
}

// ---------------------------------------------------------------------------------------------
// The generator's state.
// ---------------------------------------------------------------------------------------------

/// What the C generator has emitted so far.
pub struct CodeGen {
    strings: StringHashMap<usize>,
    arrays: StringHashSet,
    fnptrs: StringHashSet,
    strings_code: CodeOutput,
    includes: CodeOutput,
    declarations: OutputTable,
    typedefs: OutputTable,
    fndefs: Vec<CodeOutput>,
    in_function: bool,
}

/// The text that declares a function pointer type.
pub open spec fn fn_pointer_typedef(return_type: Seq<char>, mangled: Seq<char>, params: Seq<char>) -> Seq<char> {
    "typedef "@ + return_type + " (*"@ + mangled + ")("@ + params + ");\n"@
}

/// The text that declares the struct holding an array.
pub open spec fn array_struct_declaration(specifier: Seq<char>) -> Seq<char> {
    "typedef struct SKYE_ARRAY_STRUCT_"@ + specifier + ";\n"@
}

/// The text that defines the struct holding an array of `size` items of the element type.
pub open spec fn array_struct_definition(
    specifier: Seq<char>,
    struct_name: Seq<char>,
    element_type: Seq<char>,
    size: nat,
) -> Seq<char> {
    "typedef struct SKYE_ARRAY_STRUCT_"@ + specifier + " {\n"@ + spaces(OUTPUT_INDENT_SPACES as nat) + element_type
        + " SKYE_ARRAY["@ + decimal(size) + "];\n"@ + "} "@ + struct_name + ";\n\n"@
}

impl CodeGen {
    /// The names of the array structs emitted.
    pub closed spec fn array_structs(&self) -> Set<Seq<char>> {
        self.arrays@
    }

    /// The names of the function pointer types emitted.
    pub closed spec fn fn_pointers(&self) -> Set<Seq<char>> {
        self.fnptrs@
    }

    /// The declarations emitted, by name.
    pub closed spec fn declared(&self) -> Map<Seq<char>, TypeOutput> {
        self.declarations@
    }

    /// The type definitions emitted, by name.
    pub closed spec fn defined(&self) -> Map<Seq<char>, TypeOutput> {
        self.typedefs@
    }

    /// The functions being written, the innermost last.
    pub closed spec fn functions(&self) -> Seq<CodeOutput> {
        self.fndefs@
    }

    /// The string constants emitted, by content, with their numbers.
    pub closed spec fn string_constants(&self) -> Map<Seq<char>, usize> {
        self.strings@
    }

    /// The code that defines the string constants.
    pub closed spec fn strings_text(&self) -> Seq<char> {
        self.strings_code.text()
    }

    /// The include directives.
    pub closed spec fn includes_text(&self) -> Seq<char> {
        self.includes.text()
    }

    /// Whether a function body is being written.
    pub closed spec fn inside_function(&self) -> bool {
        self.in_function
    }

    /// The indentation level of the include directives.
    pub closed spec fn includes_level(&self) -> nat {
        self.includes.level()
    }

    pub fn new() -> (res: Self)
        ensures
            res.array_structs() == Set::<Seq<char>>::empty(),
            res.fn_pointers() == Set::<Seq<char>>::empty(),
            res.declared() == Map::<Seq<char>, TypeOutput>::empty(),
            res.defined() == Map::<Seq<char>, TypeOutput>::empty(),
            res.functions() == Seq::<CodeOutput>::empty(),
            res.string_constants() == Map::<Seq<char>, usize>::empty(),
            res.strings_text() == Seq::<char>::empty(),
            res.includes_text() == Seq::<char>::empty(),
            res.includes_level() == 0,
            !res.inside_function(),
    {
        CodeGen {
            strings: StringHashMap::new(),
            arrays: StringHashSet::new(),
            fnptrs: StringHashSet::new(),
            strings_code: CodeOutput::new(),
            includes: CodeOutput::new(),
            declarations: OutputTable::new(),
            typedefs: OutputTable::new(),
            fndefs: Vec::new(),
            in_function: false,
        }
    }

    /// Adds the declaration and the definition of the struct that holds an array of `size`
    /// items, the first time its specifier is met. `element_type` is the C text of the item type.
    pub fn prepare_array_struct(&mut self, array_specifier: String, struct_name: &str, element_type: &str, size: usize)
        ensures
            array_struct_prepared(*old(self), *final(self), array_specifier@, struct_name@, element_type@, size as nat),
    {
        if !self.arrays.contains(array_specifier.as_str()) {
            let mut buf = String::from_str("typedef struct SKYE_ARRAY_STRUCT_");
            buf.append(array_specifier.as_str());
            self.arrays.insert(array_specifier);

            let mut decl_buf = CodeOutput::new();
            decl_buf.push(buf.as_str());
            decl_buf.push(";\n");
            self.declarations.insert(String::from_str(struct_name), TypeOutput::independent(decl_buf));

            let mut def_buf = CodeOutput::new();
            def_buf.push(buf.as_str());
            def_buf.push(" {\n");
            def_buf.inc_indent();
            def_buf.push_indent();
            def_buf.push(element_type);
            def_buf.push(" SKYE_ARRAY[");
            def_buf.push(decimal_string(size).as_str());
            def_buf.push("];\n");
            def_buf.dec_indent();
            def_buf.push("} ");
            def_buf.push(struct_name);
            def_buf.push(";\n\n");
            self.typedefs.insert(String::from_str(struct_name), TypeOutput::independent(def_buf));
            proof {
                assert(self.declarations@[struct_name@].output.text() =~= array_struct_declaration(array_specifier@));
                assert(self.typedefs@[struct_name@].output.text() =~= array_struct_definition(
                    array_specifier@,
                    struct_name@,
                    element_type@,
                    size as nat,
                ));
                assert(self.declarations@ =~= old(self).declarations@.insert(struct_name@, self.declarations@[struct_name@]));
                assert(self.typedefs@ =~= old(self).typedefs@.insert(struct_name@, self.typedefs@[struct_name@]));
            }
        }
    }

    /// Adds the typedef of a function pointer type the first time its mangled name is met.
    /// `dependencies` are the types its declaration needs; `return_stringified` and
    /// `params_string` are the C text of its return type and parameter list.
    pub fn generate_fn_signature(
        &mut self,
        mangled: String,
        dependencies: Vec<String>,
        return_stringified: &str,
        params_string: &str,
    )
        ensures
            fn_signature_prepared(
                *old(self),
                *final(self),
                mangled@,
                dependencies@,
                return_stringified@,
                params_string@,
            ),
    {
        if !self.fnptrs.contains(mangled.as_str()) {
            let mut buf = CodeOutput::new();
            buf.push("typedef ");
            buf.push(return_stringified);
            buf.push(" (*");
            buf.push(mangled.as_str());
            buf.push(")(");
            buf.push(params_string);
            buf.push(");\n");
            proof {
                assert(buf.text() =~= fn_pointer_typedef(return_stringified@, mangled@, params_string@));
            }
            self.declarations.insert(mangled.clone(), TypeOutput::new(buf, dependencies));
            self.fnptrs.insert(mangled);
            proof {
                assert(self.declarations@ =~= old(self).declarations@.insert(mangled@, self.declarations@[mangled@]));
            }
        }
    }

    /// Starts writing the function `prepared_name` with the C text of its return type and
    /// parameter list: declares it (its declaration needing `dependencies`) and opens its body.
    pub fn begin_function(
        &mut self,
        prepared_name: String,
        return_stringified: &str,
        params_string: &str,
        dependencies: Vec<String>,
    )
        requires
            old(self).functions().len() < usize::MAX,
        ensures
            final(self).declared() == old(self).declared().insert(
                prepared_name@,
                final(self).declared()[prepared_name@],
            ),
            final(self).declared()[prepared_name@].output.text() == function_header(
                return_stringified@,
                prepared_name@,
                params_string@,
            ) + ";\n"@,
            final(self).declared()[prepared_name@].dependencies@ == dependencies@,
            final(self).functions() == old(self).functions().push(final(self).functions().last()),
            final(self).functions().last().text() == function_header(
                return_stringified@,
                prepared_name@,
                params_string@,
            ) + " {\n"@,
            final(self).functions().last().level() == 1,
            final(self).inside_function(),
            final(self).array_structs() == old(self).array_structs(),
            final(self).fn_pointers() == old(self).fn_pointers(),
            final(self).defined() == old(self).defined(),
            final(self).string_constants() == old(self).string_constants(),
            final(self).strings_text() == old(self).strings_text(),
            final(self).includes_text() == old(self).includes_text(),
    {
        let mut buf = CodeOutput::new();
        buf.push_indent();
        buf.push(return_stringified);
        buf.push(" ");
        buf.push(prepared_name.as_str());
        buf.push("(");
        buf.push(params_string);
        buf.push(")");
        let mut decl_buf = buf.clone();
        decl_buf.push(";\n");
        proof {
            assert(decl_buf.text() =~= function_header(return_stringified@, prepared_name@, params_string@) + ";\n"@);
        }
        self.declarations.insert(prepared_name.clone(), TypeOutput::new(decl_buf, dependencies));
        buf.push(" {\n");
        buf.inc_indent();
        proof {
            assert(buf.text() =~= function_header(return_stringified@, prepared_name@, params_string@) + " {\n"@);
        }
        self.fndefs.push(buf);
        self.in_function = true;
        proof {
            assert(self.declarations@ =~= old(self).declarations@.insert(prepared_name@, self.declarations@[prepared_name@]));
        }
    }

    /// Finishes the function being written: closes its body.
    pub fn end_function(&mut self)
        requires
            old(self).functions().len() > 0,
            old(self).functions().last().level() > 0,
            (old(self).functions().last().level() - 1) * OUTPUT_INDENT_SPACES <= usize::MAX,
        ensures
            final(self).functions().len() == old(self).functions().len(),
            final(self).functions().drop_last() == old(self).functions().drop_last(),
            final(self).functions().last().text() == old(self).functions().last().text() + spaces(
                ((old(self).functions().last().level() - 1) * OUTPUT_INDENT_SPACES) as nat,
            ) + "}\n"@,
            final(self).functions().last().level() == old(self).functions().last().level() - 1,
            !final(self).inside_function(),
            final(self).array_structs() == old(self).array_structs(),
            final(self).fn_pointers() == old(self).fn_pointers(),
            final(self).declared() == old(self).declared(),
            final(self).defined() == old(self).defined(),
            final(self).string_constants() == old(self).string_constants(),
            final(self).strings_text() == old(self).strings_text(),
            final(self).includes_text() == old(self).includes_text(),
    {
        self.in_function = false;
        self.end_scope();
    }

    /// Adds the include directive of `path`: `#include <path>` when `is_ang`, else
    /// `#include "path"`.
    pub fn add_include(&mut self, path: &str, is_ang: bool)
        requires
            old(self).includes_level() * OUTPUT_INDENT_SPACES <= usize::MAX,
        ensures
            final(self).includes_text() == old(self).includes_text() + spaces(
                old(self).includes_level() * (OUTPUT_INDENT_SPACES as nat),
            ) + "#include "@ + (if is_ang { "<"@ } else { "\""@ }) + path@ + (if is_ang {
                ">"@
            } else {
                "\""@
            }) + "\n"@,
            final(self).includes_level() == old(self).includes_level(),
            final(self).array_structs() == old(self).array_structs(),
            final(self).fn_pointers() == old(self).fn_pointers(),
            final(self).declared() == old(self).declared(),
            final(self).defined() == old(self).defined(),
            final(self).functions() == old(self).functions(),
            final(self).string_constants() == old(self).string_constants(),
            final(self).strings_text() == old(self).strings_text(),
            final(self).inside_function() == old(self).inside_function(),
    {
        self.includes.push_indent();
        self.includes.push("#include ");
        if is_ang {
            self.includes.push("<");
        } else {
            self.includes.push("\"");
        }
        self.includes.push(path);
        if is_ang {
            self.includes.push(">");
        } else {
            self.includes.push("\"");
        }
        self.includes.push("\n");
    }

    /// Writes a line of the function being written, at its indentation.
    fn emit_text(&mut self, text: &str)
        requires
            old(self).functions().len() > 0,
            old(self).functions().last().level() * OUTPUT_INDENT_SPACES <= usize::MAX,
        ensures
            final(self).functions().len() == old(self).functions().len(),
            final(self).functions().drop_last() == old(self).functions().drop_last(),
            final(self).functions().last().text() == old(self).functions().last().text() + spaces(
                old(self).functions().last().level() * (OUTPUT_INDENT_SPACES as nat),
            ) + text@,
            final(self).functions().last().level() == old(self).functions().last().level(),
            same_except_functions(*old(self), *final(self)),
    {
        let mut last = self.fndefs.pop().unwrap();
        last.push_indent();
        last.push(text);
        self.fndefs.push(last);
        proof {
            assert(self.fndefs@.drop_last() =~= old(self).fndefs@.drop_last());
        }
    }

    /// Writes the label `name:;` in the function being written.
    pub fn emit_label(&mut self, name: String)
        requires
            old(self).functions().len() > 0,
            old(self).functions().last().level() * OUTPUT_INDENT_SPACES <= usize::MAX,
        ensures
            final(self).functions().len() == old(self).functions().len(),
            final(self).functions().drop_last() == old(self).functions().drop_last(),
            final(self).functions().last().text() == old(self).functions().last().text() + spaces(
                old(self).functions().last().level() * (OUTPUT_INDENT_SPACES as nat),
            ) + prepared(name@) + ":;\n"@,
            final(self).functions().last().level() == old(self).functions().last().level(),
            same_except_functions(*old(self), *final(self)),
    {
        let mut text = prepare_name(name);
        text.append(":;\n");
        self.emit_text(text.as_str());
        proof {
            let l = self.functions().last().text();
            assert(l =~= old(self).functions().last().text() + spaces(
                old(self).functions().last().level() * (OUTPUT_INDENT_SPACES as nat),
            ) + prepared(name@) + ":;\n"@);
        }
    }

    /// Writes `goto label;` in the function being written.
    pub fn emit_goto(&mut self, label: String)
        requires
            old(self).functions().len() > 0,
            old(self).functions().last().level() * OUTPUT_INDENT_SPACES <= usize::MAX,
        ensures
            final(self).functions().len() == old(self).functions().len(),
            final(self).functions().drop_last() == old(self).functions().drop_last(),
            final(self).functions().last().text() == old(self).functions().last().text() + spaces(
                old(self).functions().last().level() * (OUTPUT_INDENT_SPACES as nat),
            ) + "goto "@ + prepared(label@) + ";\n"@,
            final(self).functions().last().level() == old(self).functions().last().level(),
            same_except_functions(*old(self), *final(self)),
    {
        let mut text = String::from_str("goto ");
        text.append(prepare_name(label).as_str());
        text.append(";\n");
        self.emit_text(text.as_str());
        proof {
            let l = self.functions().last().text();
            assert(l =~= old(self).functions().last().text() + spaces(
                old(self).functions().last().level() * (OUTPUT_INDENT_SPACES as nat),
            ) + "goto "@ + prepared(label@) + ";\n"@);
        }
    }

    /// Writes `break;` in the function being written.
    pub fn emit_break(&mut self)
        requires
            old(self).functions().len() > 0,
            old(self).functions().last().level() * OUTPUT_INDENT_SPACES <= usize::MAX,
        ensures
            final(self).functions().len() == old(self).functions().len(),
            final(self).functions().drop_last() == old(self).functions().drop_last(),
            final(self).functions().last().text() == old(self).functions().last().text() + spaces(
                old(self).functions().last().level() * (OUTPUT_INDENT_SPACES as nat),
            ) + "break;\n"@,
            final(self).functions().last().level() == old(self).functions().last().level(),
            same_except_functions(*old(self), *final(self)),
    {
        self.emit_text("break;\n");
    }

    /// Opens a block in the function being written.
    pub fn begin_scope(&mut self)
        requires
            old(self).functions().len() > 0,
            old(self).functions().last().level() * OUTPUT_INDENT_SPACES <= usize::MAX,
            old(self).functions().last().level() < usize::MAX,
        ensures
            scope_opened(*old(self), *final(self)),
    {
        let mut last = self.fndefs.pop().unwrap();
        last.push_indent();
        last.push("{\n");
        last.inc_indent();
        self.fndefs.push(last);
        proof {
            assert(self.fndefs@.drop_last() =~= old(self).fndefs@.drop_last());
        }
    }

    /// Closes a block in the function being written.
    pub fn end_scope(&mut self)
        requires
            old(self).functions().len() > 0,
            old(self).functions().last().level() > 0,
            (old(self).functions().last().level() - 1) * OUTPUT_INDENT_SPACES <= usize::MAX,
        ensures
            scope_closed(*old(self), *final(self)),
    {
        let mut last = self.fndefs.pop().unwrap();
        last.dec_indent();
        last.push_indent();
        last.push("}\n");
        self.fndefs.push(last);
        proof {
            assert(self.fndefs@.drop_last() =~= old(self).fndefs@.drop_last());
        }
    }
}

/// The first line of a function's declaration and definition.
pub open spec fn function_header(return_type: Seq<char>, name: Seq<char>, params: Seq<char>) -> Seq<char> {
    return_type + " "@ + name + "("@ + params + ")"@
}

/// `b` is `a` after the struct of an array was asked for: the first time its specifier is met,
/// its declaration and definition are added under `struct_name`; after that, nothing changes.
pub open spec fn array_struct_prepared(
    a: CodeGen,
    b: CodeGen,
    array_specifier: Seq<char>,
    struct_name: Seq<char>,
    element_type: Seq<char>,
    size: nat,
) -> bool {
    if a.array_structs().contains(array_specifier) {
        b == a
    } else {
        &&& b.array_structs() == a.array_structs().insert(array_specifier)
        &&& b.declared() == a.declared().insert(struct_name, b.declared()[struct_name])
        &&& emitted(b.declared()[struct_name], array_struct_declaration(array_specifier), 0)
        &&& b.defined() == a.defined().insert(struct_name, b.defined()[struct_name])
        &&& emitted(
            b.defined()[struct_name],
            array_struct_definition(array_specifier, struct_name, element_type, size),
            0,
        )
        &&& b.fn_pointers() == a.fn_pointers()
        &&& b.functions() == a.functions()
        &&& same_strings_and_includes(a, b)
    }
}

/// `b` is `a` after the typedef of a function pointer type was asked for: the first time its
/// mangled name is met, the typedef is declared under that name; after that, nothing changes.
pub open spec fn fn_signature_prepared(
    a: CodeGen,
    b: CodeGen,
    mangled: Seq<char>,
    dependencies: Seq<String>,
    return_type: Seq<char>,
    params: Seq<char>,
) -> bool {
    if a.fn_pointers().contains(mangled) {
        b == a
    } else {
        &&& b.fn_pointers() == a.fn_pointers().insert(mangled)
        &&& b.declared() == a.declared().insert(mangled, b.declared()[mangled])
        &&& b.declared()[mangled].output.text() == fn_pointer_typedef(return_type, mangled, params)
        &&& b.declared()[mangled].output.level() == 0
        &&& b.declared()[mangled].dependencies@ == dependencies
        &&& b.array_structs() == a.array_structs()
        &&& b.defined() == a.defined()
        &&& b.functions() == a.functions()
        &&& same_strings_and_includes(a, b)
    }
}

/// The struct of an array is emitted once: asking again for the same specifier, with whatever
/// name, item type and size, changes nothing.
pub proof fn lemma_array_struct_once(
    a: CodeGen,
    b: CodeGen,
    c: CodeGen,
    array_specifier: Seq<char>,
    first: (Seq<char>, Seq<char>, nat),
    second: (Seq<char>, Seq<char>, nat),
)
    requires
        array_struct_prepared(a, b, array_specifier, first.0, first.1, first.2),
        array_struct_prepared(b, c, array_specifier, second.0, second.1, second.2),
    ensures
        c == b,
        b.array_structs().contains(array_specifier),
{
}

/// A function pointer typedef is emitted once: asking again for the same mangled name changes
/// nothing.
pub proof fn lemma_fn_signature_once(
    a: CodeGen,
    b: CodeGen,
    c: CodeGen,
    mangled: Seq<char>,
    first: (Seq<String>, Seq<char>, Seq<char>),
    second: (Seq<String>, Seq<char>, Seq<char>),
)
    requires
        fn_signature_prepared(a, b, mangled, first.0, first.1, first.2),
        fn_signature_prepared(b, c, mangled, second.0, second.1, second.2),
    ensures
        c == b,
        b.fn_pointers().contains(mangled),
{
}

/// `b` is `a` with a block opened in the function being written: a `{` line at the current
/// indentation, one level deeper after it.
pub open spec fn scope_opened(a: CodeGen, b: CodeGen) -> bool {
    &&& b.functions().len() == a.functions().len()
    &&& b.functions().drop_last() == a.functions().drop_last()
    &&& b.functions().last().text() == a.functions().last().text() + spaces(
        a.functions().last().level() * (OUTPUT_INDENT_SPACES as nat),
    ) + "{\n"@
    &&& b.functions().last().level() == a.functions().last().level() + 1
    &&& same_except_functions(a, b)
}

/// `b` is `a` with the innermost block of the function being written closed: a `}` line one
/// level up, which stays the level.
pub open spec fn scope_closed(a: CodeGen, b: CodeGen) -> bool {
    &&& b.functions().len() == a.functions().len()
    &&& b.functions().drop_last() == a.functions().drop_last()
    &&& b.functions().last().text() == a.functions().last().text() + spaces(
        ((a.functions().last().level() - 1) * OUTPUT_INDENT_SPACES) as nat,
    ) + "}\n"@
    &&& b.functions().last().level() == a.functions().last().level() - 1
    &&& same_except_functions(a, b)
}

/// A block opened and closed right away adds a `{` line and a `}` line at the same indentation
/// to the function being written, and leaves its level, and everything else, as it was.
pub proof fn lemma_scope_round_trip(a: CodeGen, b: CodeGen, c: CodeGen)
    requires
        a.functions().len() > 0,
        scope_opened(a, b),
        scope_closed(b, c),
    ensures
        c.functions().len() == a.functions().len(),
        c.functions().drop_last() == a.functions().drop_last(),
        c.functions().last().level() == a.functions().last().level(),
        c.functions().last().text() == a.functions().last().text() + spaces(
            a.functions().last().level() * (OUTPUT_INDENT_SPACES as nat),
        ) + "{\n"@ + spaces(a.functions().last().level() * (OUTPUT_INDENT_SPACES as nat)) + "}\n"@,
        same_except_functions(a, c),
{
}

/// The type output holds exactly `text`, at indentation `level`, and depends on nothing.
pub open spec fn emitted(t: TypeOutput, text: Seq<char>, level: nat) -> bool {
    &&& t.output.text() == text
    &&& t.output.level() == level
    &&& t.dependencies@.len() == 0
}

pub open spec fn same_strings_and_includes(a: CodeGen, b: CodeGen) -> bool {
    &&& a.string_constants() == b.string_constants()
    &&& a.strings_text() == b.strings_text()
    &&& a.includes_text() == b.includes_text()
    &&& a.inside_function() == b.inside_function()
}

pub open spec fn same_except_functions(a: CodeGen, b: CodeGen) -> bool {
    &&& a.array_structs() == b.array_structs()
    &&& a.fn_pointers() == b.fn_pointers()
    &&& a.declared() == b.declared()
    &&& a.defined() == b.defined()
    &&& same_strings_and_includes(a, b)
}

// ---------------------------------------------------------------------------------------------
// Ordering by dependencies.
// ---------------------------------------------------------------------------------------------

#[verifier::external_type_specification]
#[verifier::external_body]
#[verifier::reject_recursive_types(T)]
pub struct ExTopoSort<T: Eq + std::hash::Hash>(TopoSort<T>);

/// The nodes of a dependency graph, each with the nodes it depends on.
pub uninterp spec fn topo_contents(graph: TopoSort<u64>) -> Map<u64, Set<u64>>;

/// `order` lists each node of `g` once, and each node after the other nodes it depends on.
pub open spec fn topological(g: Map<u64, Set<u64>>, order: Seq<u64>) -> bool {
    &&& order.no_duplicates()
    &&& order.to_set() == g.dom()
    &&& forall|i: int, j: int|
        0 <= i < order.len() && 0 <= j < order.len() && i != j && #[trigger] g[order[i]].contains(
            #[trigger] order[j],
        ) ==> j < i
}

/// The nodes in `s` each depend on another node in `s`.
pub open spec fn cycle_in(g: Map<u64, Set<u64>>, s: Set<u64>) -> bool {
    &&& s.subset_of(g.dom())
    &&& exists|x: u64| s.contains(x)
    &&& forall|n: u64| #[trigger] s.contains(n) ==> exists|d: u64| s.contains(d) && d != n && g[n].contains(d)
}

/// `TopoSort::with_capacity`: a graph with no node.
#[verifier::external_body]
fn new_graph(capacity: usize) -> (graph: TopoSort<u64>)
    ensures
        topo_contents(graph) =~= Map::empty(),
{
    TopoSort::with_capacity(capacity)
}

/// `TopoSort::insert`: the node now depends on the given nodes, in place of any it depended on.
#[verifier::external_body]
fn add_node(graph: &mut TopoSort<u64>, node: u64, dependencies: Vec<u64>)
    ensures
        topo_contents(*final(graph)) == topo_contents(*old(graph)).insert(node, dependencies@.to_set()),
{
    graph.insert(node, dependencies)
}

/// `TopoSort::into_vec_nodes`: every node, each after the nodes it depends on; or, where some
/// nodes depend on each other in a cycle, the nodes sorted before the cycle stopped the sort.
#[verifier::external_body]
fn sort_graph(graph: TopoSort<u64>) -> (res: Result<Vec<u64>, Vec<u64>>)
    ensures
        res is Ok ==> topological(topo_contents(graph), res->Ok_0@),
        res is Err ==> exists|s: Set<u64>| cycle_in(topo_contents(graph), s),
{
    match graph.into_vec_nodes() {
        SortResults::Full(nodes) => Ok(nodes),
        SortResults::Partial(nodes) => Err(nodes),
    }
}

/// `order` lists each name of `m` once, and each after the other names its output depends on.
pub open spec fn in_dependency_order(m: Map<Seq<char>, TypeOutput>, order: Seq<Seq<char>>) -> bool {
    &&& order.no_duplicates()
    &&& order.to_set() == m.dom()
    &&& forall|i: int, j: int|
        0 <= i < order.len() && 0 <= j < order.len() && i != j && #[trigger] m[order[i]].needs().contains(
            #[trigger] order[j],
        ) ==> j < i
}

/// Some outputs in `m` depend on each other in a cycle: each of the names in a nonempty set
/// depends on another name of the set.
pub open spec fn has_dependency_cycle(m: Map<Seq<char>, TypeOutput>) -> bool {
    exists|s: Set<Seq<char>>| #[trigger] name_cycle_in(m, s)
}

pub open spec fn name_cycle_in(m: Map<Seq<char>, TypeOutput>, s: Set<Seq<char>>) -> bool {
    &&& s.subset_of(m.dom())
    &&& exists|x: Seq<char>| s.contains(x)
    &&& forall|n: Seq<char>| #[trigger] s.contains(n) ==> exists|d: Seq<char>| s.contains(d) && d != n && m[n].needs().contains(d)
}

/// Entry `k` depends on the name of entry `j`.
pub open spec fn depends_on(s: Seq<(String, TypeOutput)>, k: int, j: int) -> bool {
    s[k].1.needs().contains(s[j].0@)
}

/// The dependency graph of a table's entries, by position.
pub open spec fn entry_graph(s: Seq<(String, TypeOutput)>) -> Map<u64, Set<u64>> {
    Map::new(|k: u64| k < s.len(), |k: u64| Set::new(|j: u64| j < s.len() && depends_on(s, k as int, j as int)))
}

fn needs_name(out: &TypeOutput, name: &String) -> (res: bool)
    ensures
        res == out.needs().contains(name@),
{
    let n = out.dependencies.len();
    let mut i: usize = 0;
    while i < n
        invariant
            n == out.dependencies@.len(),
            i <= n,
            forall|j: int| 0 <= j < i ==> out.dependencies@[j]@ != name@,
        decreases n - i,
    {
        if str_equal(out.dependencies[i].as_str(), name.as_str()) {
            return true;
        }
        i = i + 1;
    }
    false
}

fn dependency_indices(entries: &Vec<(String, TypeOutput)>, k: usize) -> (res: Vec<u64>)
    requires
        k < entries@.len(),
    ensures
        res@.to_set() == entry_graph(entries@)[k as u64],
{
    let n = entries.len();
    let mut res: Vec<u64> = Vec::new();
    let mut j: usize = 0;
    while j < n
        invariant
            n == entries@.len(),
            k < n,
            j <= n,
            forall|x: u64| res@.contains(x) <==> (x < j && depends_on(entries@, k as int, x as int)),
        decreases n - j,
    {
        let ghost before = res@;
        let wanted = needs_name(&entries[k].1, &entries[j].0);
        if wanted {
            res.push(j as u64);
        }
        proof {
            assert(wanted == depends_on(entries@, k as int, j as int));
            assert forall|x: u64| res@.contains(x) <==> (x < j + 1 && depends_on(entries@, k as int, x as int)) by {
                if !wanted {
                    assert(res@ == before);
                    if res@.contains(x) {
                        assert(before.contains(x));
                    }
                    if x == j as u64 {
                        assert(!before.contains(x));
                    }
                } else {
                    assert(res@ == before.push(j as u64));
                    if x == j as u64 {
                        assert(res@[before.len() as int] == x);
                    } else if res@.contains(x) {
                        let i = choose|i: int| 0 <= i < res@.len() && res@[i] == x;
                        assert(before[i] == x);
                        assert(before.contains(x));
                    } else if before.contains(x) {
                        let i = choose|i: int| 0 <= i < before.len() && before[i] == x;
                        assert(res@[i] == x);
                    }
                }
            }
        }
        j = j + 1;
    }
    assert(res@.to_set() =~= entry_graph(entries@)[k as u64]);
    res
}

/// The names of the entries at the given positions.
pub open spec fn names_at(s: Seq<(String, TypeOutput)>, c: Set<u64>) -> Set<Seq<char>> {
    Set::new(|n: Seq<char>| exists|k: u64| #[trigger] c.contains(k) && s[k as int].0@ == n)
}

proof fn lemma_names_at_dom(s: Seq<(String, TypeOutput)>, c: Set<u64>)
    requires
        distinct_names(s),
        c.subset_of(entry_graph(s).dom()),
    ensures
        names_at(s, c).subset_of(entries_map(s).dom()),
{
    assert forall|n: Seq<char>| names_at(s, c).contains(n) implies entries_map(s).dom().contains(n) by {
        let k = choose|k: u64| #[trigger] c.contains(k) && s[k as int].0@ == n;
        lemma_entries_at(s, k as int);
    }
}

#[verifier::spinoff_prover]
#[verifier::rlimit(40)]
proof fn lemma_names_at_step(s: Seq<(String, TypeOutput)>, c: Set<u64>, n: Seq<char>)
    requires
        distinct_names(s),
        cycle_in(entry_graph(s), c),
        names_at(s, c).contains(n),
    ensures
        exists|d: Seq<char>| names_at(s, c).contains(d) && d != n && entries_map(s)[n].needs().contains(d),
{
    let g = entry_graph(s);
    let k = choose|k: u64| #[trigger] c.contains(k) && s[k as int].0@ == n;
    let e = choose|e: u64| c.contains(e) && e != k && g[k].contains(e);
    assert(g.dom().contains(k));
    assert(g.dom().contains(e));
    assert(depends_on(s, k as int, e as int));
    lemma_entries_at(s, k as int);
    assert(names_at(s, c).contains(s[e as int].0@));
    assert(s[e as int].0@ != n);
}

proof fn lemma_names_at_nonempty(s: Seq<(String, TypeOutput)>, c: Set<u64>)
    requires
        exists|x: u64| c.contains(x),
    ensures
        exists|n: Seq<char>| names_at(s, c).contains(n),
{
    let x = choose|x: u64| c.contains(x);
    assert(names_at(s, c).contains(s[x as int].0@));
}

#[verifier::spinoff_prover]
#[verifier::rlimit(40)]
pub(crate) proof fn lemma_graph_cycle(s: Seq<(String, TypeOutput)>, c: Set<u64>)
    requires
        distinct_names(s),
        cycle_in(entry_graph(s), c),
    ensures
        has_dependency_cycle(entries_map(s)),
{
    let names = names_at(s, c);
    let m = entries_map(s);
    lemma_names_at_dom(s, c);
    lemma_names_at_nonempty(s, c);
    assert forall|n: Seq<char>| #[trigger] names.contains(n) implies exists|d: Seq<char>|
        names.contains(d) && d != n && m[n].needs().contains(d) by {
        lemma_names_at_step(s, c, n);
    }
    assert(name_cycle_in(m, names));
}

impl OutputTable {
    /// The positions of the entries, each after those of the entries it depends on.
    fn dependency_order(&self) -> (res: Vec<u64>)
        requires
            !has_dependency_cycle(self@),
        ensures
            topological(entry_graph(self.entries@), res@),
    {
        proof { use_type_invariant(self); }
        let n = self.entries.len();
        let mut graph = new_graph(n);
        let mut k: usize = 0;
        while k < n
            invariant
                n == self.entries@.len(),
                k <= n,
                topo_contents(graph) == Map::new(|x: u64| x < k, |x: u64| entry_graph(self.entries@)[x]),
            decreases n - k,
        {
            let deps = dependency_indices(&self.entries, k);
            add_node(&mut graph, k as u64, deps);
            proof {
                assert(topo_contents(graph) =~= Map::new(
                    |x: u64| x < k + 1,
                    |x: u64| entry_graph(self.entries@)[x],
                ));
            }
            k = k + 1;
        }
        assert(topo_contents(graph) =~= entry_graph(self.entries@));
        match sort_graph(graph) {
            Ok(order) => order,
            Err(_) => {
                proof {
                    let c = choose|c: Set<u64>| cycle_in(entry_graph(self.entries@), c);
                    lemma_graph_cycle(self.entries@, c);
                }
                Vec::new()
            },
        }
    }
}

// ---------------------------------------------------------------------------------------------
// The C file.
// ---------------------------------------------------------------------------------------------

/// The names of the entries at the positions in `order`.
pub open spec fn names_of(s: Seq<(String, TypeOutput)>, order: Seq<u64>) -> Seq<Seq<char>> {
    order.map_values(|k: u64| s[k as int].0@)
}

/// The outputs of the names in `order`, one after the other.
pub open spec fn texts_in(m: Map<Seq<char>, TypeOutput>, order: Seq<Seq<char>>) -> Seq<char>
    decreases order.len(),
{
    if order.len() == 0 {
        Seq::empty()
    } else {
        texts_in(m, order.drop_last()) + m[order.last()].output.text()
    }
}

/// The outputs of the names in `order`, each followed by a line break.
pub open spec fn lines_in(m: Map<Seq<char>, TypeOutput>, order: Seq<Seq<char>>) -> Seq<char>
    decreases order.len(),
{
    if order.len() == 0 {
        Seq::empty()
    } else {
        lines_in(m, order.drop_last()) + m[order.last()].output.text() + "\n"@
    }
}

/// The code of the functions, each followed by a line break.
pub open spec fn function_lines(fs: Seq<CodeOutput>) -> Seq<char>
    decreases fs.len(),
{
    if fs.len() == 0 {
        Seq::empty()
    } else {
        function_lines(fs.drop_last()) + fs.last().text() + "\n"@
    }
}

/// The text, when it is not empty, followed by a line break.
pub open spec fn section(text: Seq<char>) -> Seq<char> {
    if text.len() != 0 {
        text + "\n"@
    } else {
        Seq::empty()
    }
}

/// The C file: a greeting, the includes, the string constants, the declarations in the order
/// `decl_order`, the type definitions in the order `def_order`, and the functions.
pub open spec fn c_file(
    includes: Seq<char>,
    strings: Seq<char>,
    decls: Map<Seq<char>, TypeOutput>,
    decl_order: Seq<Seq<char>>,
    defs: Map<Seq<char>, TypeOutput>,
    def_order: Seq<Seq<char>>,
    functions: Seq<CodeOutput>,
) -> Seq<char> {
    "// Hello from Skye!! ^_^\n\n"@ + section(includes) + section(strings) + (if decls.dom() != Set::<Seq<char>>::empty() {
        texts_in(decls, decl_order) + "\n"@
    } else {
        Seq::empty()
    }) + lines_in(defs, def_order) + function_lines(functions)
}

pub(crate) proof fn lemma_names_in_order(s: Seq<(String, TypeOutput)>, order: Seq<u64>)
    requires
        distinct_names(s),
        s.len() <= u64::MAX,
        topological(entry_graph(s), order),
    ensures
        in_dependency_order(entries_map(s), names_of(s, order)),
{
    let g = entry_graph(s);
    let m = entries_map(s);
    let names = names_of(s, order);
    assert forall|i: int| 0 <= i < order.len() implies order[i] < s.len() by {
        assert(order.to_set().contains(order[i]));
    }
    assert forall|i: int, j: int| 0 <= i < names.len() && 0 <= j < names.len() && i != j implies names[i]
        != names[j] by {
        assert(order[i] != order[j]);
        assert(order.to_set().contains(order[i]));
        assert(order.to_set().contains(order[j]));
    }
    assert forall|n: Seq<char>| names.to_set().contains(n) <==> m.dom().contains(n) by {
        lemma_entries_dom(s, n);
        if names.to_set().contains(n) {
            let i = choose|i: int| 0 <= i < names.len() && names[i] == n;
            assert(s[order[i] as int].0@ == n);
        }
        if m.dom().contains(n) {
            let k = choose|k: int| 0 <= k < s.len() && s[k].0@ == n;
            assert(g.dom().contains(k as u64));
            assert(order.to_set().contains(k as u64));
            let i = choose|i: int| 0 <= i < order.len() && order[i] == k as u64;
            assert(order[i] as int == k);
            assert(names[i] == s[order[i] as int].0@);
        }
    }
    assert(names.to_set() =~= m.dom());
    assert forall|i: int, j: int|
        0 <= i < names.len() && 0 <= j < names.len() && i != j && #[trigger] m[names[i]].needs().contains(
            #[trigger] names[j],
        ) implies j < i by {
        lemma_entries_at(s, order[i] as int);
        assert(depends_on(s, order[i] as int, order[j] as int));
        assert(g[order[i]].contains(order[j]));
    }
}

impl OutputTable {
    /// Appends the outputs at the positions in `order`, each followed by a line break when
    /// `line_breaks` holds.
    fn append_in_order(&self, out: &mut String, order: &Vec<u64>, line_breaks: bool)
        requires
            topological(entry_graph(self.entries@), order@),
        ensures
            final(out)@ == old(out)@ + (if line_breaks {
                lines_in(self@, names_of(self.entries@, order@))
            } else {
                texts_in(self@, names_of(self.entries@, order@))
            }),
    {
        proof { use_type_invariant(self); }
        let ghost names = names_of(self.entries@, order@);
        let ghost start = out@;
        let n = order.len();
        let mut i: usize = 0;
        while i < n
            invariant
                n == order@.len(),
                i <= n,
                topological(entry_graph(self.entries@), order@),
                distinct_names(self.entries@),
                names == names_of(self.entries@, order@),
                start == old(out)@,
                out@ == start + (if line_breaks {
                    lines_in(self@, names.subrange(0, i as int))
                } else {
                    texts_in(self@, names.subrange(0, i as int))
                }),
            decreases n - i,
        {
            let k = order[i];
            proof {
                assert(order@.to_set().contains(k));
                assert(entry_graph(self.entries@).dom().contains(k));
                assert(k < self.entries@.len());
            }
            let len = self.entries.len();
            assert(k < len);
            let idx = k as usize;
            assert(idx as int == k as int);
            let entry = &self.entries[idx];
            let ghost before = out@;
            let ghost prefix = names.subrange(0, i as int);
            let ghost next = names.subrange(0, i as int + 1);
            proof {
                lemma_entries_at(self.entries@, k as int);
                assert(next.drop_last() =~= prefix);
                assert(names[i as int] == self.entries@[k as int].0@);
                assert(next.last() == self.entries@[k as int].0@);
                assert(self@[next.last()] == entry.1);
                assert(texts_in(self@, next) == texts_in(self@, prefix) + entry.1.output.text());
                assert(lines_in(self@, next) == lines_in(self@, prefix) + entry.1.output.text() + "\n"@);
            }
            out.append(entry.1.output.code.as_str());
            if line_breaks {
                out.append("\n");
            }
            proof {
                if line_breaks {
                    assert(out@ =~= start + lines_in(self@, next));
                } else {
                    assert(out@ =~= start + texts_in(self@, next));
                }
            }
            i = i + 1;
        }
        assert(names.subrange(0, n as int) =~= names);
    }

    fn is_empty(&self) -> (res: bool)
        ensures
            res == (self@.dom() == Set::<Seq<char>>::empty()),
    {
        proof { use_type_invariant(self); }
        if self.entries.len() == 0 {
            assert(self@.dom() =~= Set::<Seq<char>>::empty());
            true
        } else {
            proof {
                lemma_entries_at(self.entries@, 0);
            }
            false
        }
    }
}

impl CodeGen {
    /// The C file of what has been generated: the includes, the string constants, the
    /// declarations, each after those it depends on, the type definitions, each after those it
    /// depends on, and the functions.
    pub fn assemble(&self) -> (res: String)
        requires
            !has_dependency_cycle(self.declared()),
            !has_dependency_cycle(self.defined()),
        ensures
            exists|decl_order: Seq<Seq<char>>, def_order: Seq<Seq<char>>|
                {
                    &&& in_dependency_order(self.declared(), decl_order)
                    &&& in_dependency_order(self.defined(), def_order)
                    &&& res@ == c_file(
                        self.includes_text(),
                        self.strings_text(),
                        self.declared(),
                        decl_order,
                        self.defined(),
                        def_order,
                        self.functions(),
                    )
                },
    {
        proof {
            use_type_invariant(&self.declarations);
            use_type_invariant(&self.typedefs);
        }
        let decl_order = self.declarations.dependency_order();
        let def_order = self.typedefs.dependency_order();
        let ghost od = names_of(self.declarations.entries@, decl_order@);
        let ghost ot = names_of(self.typedefs.entries@, def_order@);
        proof {
            assert(self.declarations.entries@.len() == self.declarations.entries.len());
            assert(self.typedefs.entries@.len() == self.typedefs.entries.len());
            lemma_names_in_order(self.declarations.entries@, decl_order@);
            lemma_names_in_order(self.typedefs.entries@, def_order@);
            reveal_strlit("\n");
        }
        let mut output = String::from_str("// Hello from Skye!! ^_^\n\n");
        let ghost p0 = output@;
        if !self.includes.code.as_str().is_empty() {
            output.append(self.includes.code.as_str());
            output.append("\n");
        }
        assert(output@ =~= p0 + section(self.includes_text()));
        let ghost p1 = output@;
        if !self.strings_code.code.as_str().is_empty() {
            output.append(self.strings_code.code.as_str());
            output.append("\n");
        }
        assert(output@ =~= p1 + section(self.strings_text()));
        let ghost p2 = output@;
        if !self.declarations.is_empty() {
            self.declarations.append_in_order(&mut output, &decl_order, false);
            output.append("\n");
        }
        assert(output@ =~= p2 + (if self.declared().dom() != Set::<Seq<char>>::empty() {
            texts_in(self.declared(), od) + "\n"@
        } else {
            Seq::empty()
        }));
        let ghost p3 = output@;
        self.typedefs.append_in_order(&mut output, &def_order, true);
        let ghost p4 = output@;
        let n = self.fndefs.len();
        let mut i: usize = 0;
        while i < n
            invariant
                n == self.fndefs@.len(),
                i <= n,
                output@ == p4 + function_lines(self.fndefs@.subrange(0, i as int)),
            decreases n - i,
        {
            output.append(self.fndefs[i].code.as_str());
            output.append("\n");
            proof {
                assert(self.fndefs@.subrange(0, i as int + 1).drop_last() =~= self.fndefs@.subrange(0, i as int));
                assert(output@ =~= p4 + function_lines(self.fndefs@.subrange(0, i as int + 1)));
            }
            i = i + 1;
        }
        proof {
            assert(self.fndefs@.subrange(0, n as int) =~= self.fndefs@);
            assert(output@ =~= c_file(
                self.includes_text(),
                self.strings_text(),
                self.declared(),
                od,
                self.defined(),
                ot,
                self.functions(),
            ));
        }
        output
    }
}

} // verus!
