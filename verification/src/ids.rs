use vstd::prelude::*;

verus! {

/// Identity of an interned variable name. Two ids compare equal exactly when
/// the interned texts compare equal.
#[derive(PartialEq, Eq, Structural, Debug, Hash, Clone, Copy)]
pub struct VariableId(pub usize);

/// Identity of an interned function name.
#[derive(PartialEq, Eq, Structural, Debug, Hash, Clone, Copy)]
pub struct FunctionId(pub usize);

/// Identity of an interned type name.
#[derive(PartialEq, Eq, Structural, Debug, Hash, Clone, Copy)]
pub struct TypeId(pub usize);

/// Identity of an interned numeric block id.
#[derive(PartialEq, Eq, Structural, Debug, Hash, Clone, Copy)]
pub struct BlockId(pub usize);

impl View for VariableId {
    type V = VariableId;

    open spec fn view(&self) -> VariableId {
        *self
    }
}

impl View for FunctionId {
    type V = FunctionId;

    open spec fn view(&self) -> FunctionId {
        *self
    }
}

impl View for TypeId {
    type V = TypeId;

    open spec fn view(&self) -> TypeId {
        *self
    }
}

impl View for BlockId {
    type V = BlockId;

    open spec fn view(&self) -> BlockId {
        *self
    }
}

/// Index of the first entry of `s` equal to `t`, scanning from `k` upward;
/// `-1` when no entry from `k` on is equal to `t`.
pub open spec fn sp_find_from<T>(s: Seq<T>, t: T, k: int) -> int
    decreases s.len() - k,
{
    if k < 0 || k >= s.len() {
        -1
    } else if s[k] == t {
        k
    } else {
        sp_find_from(s, t, k + 1)
    }
}

/// Index of the first entry of `s` equal to `t`, or `-1`.
pub open spec fn sp_find<T>(s: Seq<T>, t: T) -> int {
    sp_find_from(s, t, 0)
}

/// Interning `t` into the table `s`: the id handed out (the index of the
/// entry holding `t`) and the table afterwards. An already-interned text
/// keeps its id and leaves the table unchanged; a new text is appended.
pub open spec fn sp_intern<T>(s: Seq<T>, t: T) -> (int, Seq<T>) {
    let f = sp_find(s, t);
    if f >= 0 {
        (f, s)
    } else {
        (s.len() as int, s.push(t))
    }
}

pub proof fn lemma_sp_find_from_bounds<T>(s: Seq<T>, t: T, k: int)
    requires
        0 <= k,
    ensures
        sp_find_from(s, t, k) == -1 || (k <= sp_find_from(s, t, k) < s.len() && s[sp_find_from(
            s,
            t,
            k,
        )] == t),
        sp_find_from(s, t, k) == -1 ==> forall|j: int| k <= j < s.len() ==> s[j] != t,
        sp_find_from(s, t, k) >= 0 ==> forall|j: int| k <= j < sp_find_from(s, t, k) ==> s[j] != t,
    decreases s.len() - k,
{
    if k < s.len() && s[k] != t {
        lemma_sp_find_from_bounds(s, t, k + 1);
    }
}

pub proof fn lemma_sp_find_from_push_absent<T>(s: Seq<T>, t: T, k: int)
    requires
        0 <= k,
        sp_find_from(s, t, k) == -1,
        k <= s.len(),
    ensures
        sp_find_from(s.push(t), t, k) == s.len(),
    decreases s.len() - k,
{
    if k < s.len() {
        lemma_sp_find_from_push_absent(s, t, k + 1);
    } else {
        assert(s.push(t)[k] == t);
    }
}

pub proof fn lemma_sp_find_from_push_other<T>(s: Seq<T>, t: T, u: T, k: int)
    requires
        0 <= k,
        t != u,
    ensures
        sp_find_from(s.push(u), t, k) == sp_find_from(s, t, k),
    decreases s.len() - k,
{
    if k < s.len() {
        assert(s.push(u)[k] == s[k]);
        if s[k] != t {
            lemma_sp_find_from_push_other(s, t, u, k + 1);
        }
    } else if k == s.len() {
        assert(s.push(u)[k] == u);
        assert(sp_find_from(s.push(u), t, k + 1) == -1);
    } else {
        assert(k >= s.push(u).len());
    }
}

/// Law: interning a text and then another always hands out equal ids exactly
/// when the texts are equal — equal texts share one id, unequal texts never
/// alias, whatever the table held beforehand.
pub proof fn lemma_interning_identity<T>(tbl: Seq<T>, a: T, b: T)
    ensures
        ({
            let (ia, t1) = sp_intern(tbl, a);
            let (ib, t2) = sp_intern(t1, b);
            (ia == ib) <==> (a == b)
        }),
{
    let (ia, t1) = sp_intern(tbl, a);
    let (ib, t2) = sp_intern(t1, b);
    lemma_sp_find_from_bounds(tbl, a, 0);
    lemma_sp_find_from_bounds(t1, b, 0);
    // In both the found and the appended case, t1 holds a at index ia.
    assert(0 <= ia < t1.len() && t1[ia] == a);
    if a == b {
        if sp_find(tbl, a) >= 0 {
            assert(ib == ia);
        } else {
            lemma_sp_find_from_push_absent(tbl, a, 0);
            assert(ib == ia);
        }
    } else {
        if sp_find(t1, b) >= 0 {
            assert(t1[ib] == b);
            assert(ia != ib);
        } else {
            assert(ib == t1.len());
            assert(ia != ib);
        }
    }
}

/// The mathematical image of an [`Interner`]: one table of texts per kind of
/// name, plus the table of numeric block ids.
pub struct InternerV {
    pub variables: Seq<Seq<u8>>,
    pub functions: Seq<Seq<u8>>,
    pub types: Seq<Seq<u8>>,
    pub blocks: Seq<u64>,
}

/// Canonicalizes texts into small comparable ids, partitioned by kind:
/// variable names, function names, type names and numeric block ids. Entries
/// are never removed, so an id, once handed out, keeps denoting the same
/// text for the whole life of the interner.
pub struct Interner {
    pub variables: Vec<Vec<u8>>,
    pub functions: Vec<Vec<u8>>,
    pub types: Vec<Vec<u8>>,
    pub blocks: Vec<u64>,
}

impl View for Interner {
    type V = InternerV;

    open spec fn view(&self) -> InternerV {
        InternerV {
            variables: self.variables.deep_view(),
            functions: self.functions.deep_view(),
            types: self.types.deep_view(),
            blocks: self.blocks@,
        }
    }
}

/// True when `a` and `b` hold the same bytes.
pub fn bytes_eq(a: &Vec<u8>, b: &Vec<u8>) -> (r: bool)
    ensures
        r == (a@ == b@),
{
    if a.len() != b.len() {
        assert(a@ != b@);
        return false;
    }
    let n = a.len();
    let mut i: usize = 0;
    while i < n
        invariant
            n == a@.len() == b@.len(),
            0 <= i <= n,
            forall|j: int| 0 <= j < i ==> a@[j] == b@[j],
        decreases n - i,
    {
        if a[i] != b[i] {
            return false;
        }
        i += 1;
    }
    assert(a@ =~= b@);
    true
}

fn find_text(table: &Vec<Vec<u8>>, text: &Vec<u8>) -> (r: Option<usize>)
    ensures
        match r {
            Some(i) => sp_find(table.deep_view(), text@) == i,
            None => sp_find(table.deep_view(), text@) == -1,
        },
{
    let ghost s = table.deep_view();
    let n = table.len();
    assert(s.len() == n);
    let mut i: usize = 0;
    while i < n
        invariant
            n == table@.len(),
            s == table.deep_view(),
            s.len() == n,
            0 <= i <= n,
            sp_find(s, text@) == sp_find_from(s, text@, i as int),
        decreases n - i,
    {
        assert(s[i as int] == table@[i as int]@);
        if bytes_eq(&table[i], text) {
            assert(sp_find_from(s, text@, i as int) == i);
            return Some(i);
        }
        i += 1;
    }
    None
}

fn intern_text(table: &mut Vec<Vec<u8>>, text: Vec<u8>) -> (r: usize)
    ensures
        ({
            let (i, t) = sp_intern(old(table).deep_view(), text@);
            r as int == i && final(table).deep_view() == t
        }),
{
    let ghost s = old(table).deep_view();
    match find_text(table, &text) {
        Some(i) => {
            proof {
                lemma_sp_find_from_bounds(s, text@, 0);
            }
            i
        },
        None => {
            let i = table.len();
            let ghost tx = text@;
            table.push(text);
            proof {
                let tv = table.deep_view();
                let ov = s.push(tx);
                assert forall|j: int| 0 <= j < tv.len() implies tv[j] == ov[j] by {
                    assert(tv[j] == table@[j].deep_view());
                    if j < i {
                        assert(table@[j] == old(table)@[j]);
                        assert(s[j] == old(table)@[j].deep_view());
                    } else {
                        assert(table@[j].deep_view() =~= tx);
                    }
                };
                assert(tv =~= ov);
            }
            i
        },
    }
}

impl Interner {
    /// A fresh interner with no entries of any kind.
    pub fn new() -> (r: Self)
        ensures
            r@.variables == Seq::<Seq<u8>>::empty(),
            r@.functions == Seq::<Seq<u8>>::empty(),
            r@.types == Seq::<Seq<u8>>::empty(),
            r@.blocks == Seq::<u64>::empty(),
    {
        let r = Interner { variables: Vec::new(), functions: Vec::new(), types: Vec::new(), blocks: Vec::new() };
        assert(r@.variables =~= Seq::<Seq<u8>>::empty());
        assert(r@.functions =~= Seq::<Seq<u8>>::empty());
        assert(r@.types =~= Seq::<Seq<u8>>::empty());
        assert(r@.blocks =~= Seq::<u64>::empty());
        r
    }

    /// Interns a variable name: an old text keeps its id, a new text is
    /// appended to the variable table. The other kinds are untouched.
    pub fn intern_variable(&mut self, text: Vec<u8>) -> (r: VariableId)
        ensures
            ({
                let (i, t) = sp_intern(old(self)@.variables, text@);
                r.0 as int == i && final(self)@.variables == t
            }),
            final(self)@.functions == old(self)@.functions,
            final(self)@.types == old(self)@.types,
            final(self)@.blocks == old(self)@.blocks,
    {
        VariableId(intern_text(&mut self.variables, text))
    }

    /// Interns a function name; see [`Interner::intern_variable`].
    pub fn intern_function(&mut self, text: Vec<u8>) -> (r: FunctionId)
        ensures
            ({
                let (i, t) = sp_intern(old(self)@.functions, text@);
                r.0 as int == i && final(self)@.functions == t
            }),
            final(self)@.variables == old(self)@.variables,
            final(self)@.types == old(self)@.types,
            final(self)@.blocks == old(self)@.blocks,
    {
        FunctionId(intern_text(&mut self.functions, text))
    }

    /// Interns a type name; see [`Interner::intern_variable`].
    pub fn intern_type(&mut self, text: Vec<u8>) -> (r: TypeId)
        ensures
            ({
                let (i, t) = sp_intern(old(self)@.types, text@);
                r.0 as int == i && final(self)@.types == t
            }),
            final(self)@.variables == old(self)@.variables,
            final(self)@.functions == old(self)@.functions,
            final(self)@.blocks == old(self)@.blocks,
    {
        TypeId(intern_text(&mut self.types, text))
    }

    /// Interns a numeric block id; see [`Interner::intern_variable`].
    pub fn intern_block(&mut self, id: u64) -> (r: BlockId)
        ensures
            ({
                let (i, t) = sp_intern(old(self)@.blocks, id);
                r.0 as int == i && final(self)@.blocks == t
            }),
            final(self)@.variables == old(self)@.variables,
            final(self)@.functions == old(self)@.functions,
            final(self)@.types == old(self)@.types,
    {
        let ghost s = self.blocks@;
        let n = self.blocks.len();
        let mut i: usize = 0;
        while i < n
            invariant
                n == self.blocks@.len(),
                s == self.blocks@,
                0 <= i <= n,
                sp_find(s, id) == sp_find_from(s, id, i as int),
            decreases n - i,
        {
            if self.blocks[i] == id {
                return BlockId(i);
            }
            i += 1;
        }
        let k = self.blocks.len();
        self.blocks.push(id);
        BlockId(k)
    }

    /// The text a variable id stands for, or `None` for an id this interner
    /// never handed out.
    pub fn variable_text(&self, id: VariableId) -> (r: Option<&Vec<u8>>)
        ensures
            match r {
                Some(t) => id.0 < self@.variables.len() && t@ == self@.variables[id.0 as int],
                None => id.0 >= self@.variables.len(),
            },
    {
        if id.0 < self.variables.len() {
            let t = &self.variables[id.0];
            assert(t@ == self@.variables[id.0 as int]);
            Some(t)
        } else {
            None
        }
    }

    /// The text a function id stands for; see [`Interner::variable_text`].
    pub fn function_text(&self, id: FunctionId) -> (r: Option<&Vec<u8>>)
        ensures
            match r {
                Some(t) => id.0 < self@.functions.len() && t@ == self@.functions[id.0 as int],
                None => id.0 >= self@.functions.len(),
            },
    {
        if id.0 < self.functions.len() {
            let t = &self.functions[id.0];
            assert(t@ == self@.functions[id.0 as int]);
            Some(t)
        } else {
            None
        }
    }

    /// The text a type id stands for; see [`Interner::variable_text`].
    pub fn type_text(&self, id: TypeId) -> (r: Option<&Vec<u8>>)
        ensures
            match r {
                Some(t) => id.0 < self@.types.len() && t@ == self@.types[id.0 as int],
                None => id.0 >= self@.types.len(),
            },
    {
        if id.0 < self.types.len() {
            let t = &self.types[id.0];
            assert(t@ == self@.types[id.0 as int]);
            Some(t)
        } else {
            None
        }
    }
}

} // verus!
