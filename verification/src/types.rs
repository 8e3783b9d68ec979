//! Structural type descriptors and the registry that interns them.
use vstd::prelude::*;
use crate::error::Error;

verus! {

/// The element kinds of scalars, vectors and matrices.
#[derive(Clone, Copy, PartialEq, Eq, Structural, Debug)]
pub enum Primitive {
    Bool,
    Int32,
    Uint32,
    Float32,
}

/// The canonical identity of an interned type: its position in the registry.
#[derive(Clone, Copy, PartialEq, Eq, Structural, Debug)]
pub struct TypeId {
    pub index: usize,
}

/// A structural type descriptor. Nested types are named by their identity, so
/// a descriptor can only be built from types that are already interned.
#[derive(Clone, Debug, PartialEq, Eq)]
pub enum Type {
    Scalar(Primitive),
    Vector(Primitive, u32),
    Matrix(Primitive, u32),
    Struct(Vec<TypeId>),
    Array(TypeId, u64),
}

/// The mathematical value of a descriptor.
pub enum Shape {
    Scalar(Primitive),
    Vector(Primitive, nat),
    Matrix(Primitive, nat),
    Struct(Seq<TypeId>),
    Array(TypeId, nat),
}

impl View for Type {
    type V = Shape;

    open spec fn view(&self) -> Shape {
        match *self {
            Type::Scalar(p) => Shape::Scalar(p),
            Type::Vector(p, n) => Shape::Vector(p, n as nat),
            Type::Matrix(p, n) => Shape::Matrix(p, n as nat),
            Type::Struct(fields) => Shape::Struct(fields@),
            Type::Array(t, n) => Shape::Array(t, n as nat),
        }
    }
}

/// The smallest and largest arity of a vector or matrix.
pub const MIN_ARITY: u32 = 2;

pub const MAX_ARITY: u32 = 4;

/// Every identity in `fields` is below `bound`.
pub open spec fn all_below(fields: Seq<TypeId>, bound: nat) -> bool {
    forall|i: int| 0 <= i < fields.len() ==> (#[trigger] fields[i]).index < bound
}

/// A descriptor is well formed against a table of `bound` entries when its
/// vector length or matrix dimension is 2, 3 or 4 and every type it names is
/// one of those entries.
pub open spec fn well_formed(shape: Shape, bound: nat) -> bool {
    match shape {
        Shape::Scalar(_) => true,
        Shape::Vector(_, n) => MIN_ARITY <= n <= MAX_ARITY,
        Shape::Matrix(_, n) => MIN_ARITY <= n <= MAX_ARITY,
        Shape::Struct(fields) => all_below(fields, bound),
        Shape::Array(t, _) => t.index < bound,
    }
}

/// No descriptor occurs twice.
pub open spec fn canonical(table: Seq<Shape>) -> bool {
    forall|i: int, j: int|
        0 <= i < table.len() && 0 <= j < table.len() && #[trigger] table[i] == #[trigger] table[j]
            ==> i == j
}

/// Every entry names only entries before it.
pub open spec fn grounded(table: Seq<Shape>) -> bool {
    forall|i: int| 0 <= i < table.len() ==> well_formed(#[trigger] table[i], i as nat)
}

/// `longer` holds everything `shorter` holds, at the same positions.
pub open spec fn extends<T>(shorter: Seq<T>, longer: Seq<T>) -> bool {
    shorter.len() <= longer.len() && longer.take(shorter.len() as int) == shorter
}

/// The table and identity that interning `shape` into `table` gives: the
/// position of the equal entry where there is one, else a new last entry.
pub open spec fn intern(table: Seq<Shape>, shape: Shape) -> (Seq<Shape>, nat) {
    if table.contains(shape) {
        (table, table.index_of(shape) as nat)
    } else {
        (table.push(shape), table.len())
    }
}

impl Type {
    /// Whether two descriptors are structurally equal.
    pub fn same(&self, other: &Type) -> (equal: bool)
        ensures
            equal == (self@ == other@),
    {
        match self {
            Type::Scalar(p) => match other {
                Type::Scalar(q) => *p == *q,
                _ => false,
            },
            Type::Vector(p, n) => match other {
                Type::Vector(q, m) => *p == *q && *n == *m,
                _ => false,
            },
            Type::Matrix(p, n) => match other {
                Type::Matrix(q, m) => *p == *q && *n == *m,
                _ => false,
            },
            Type::Array(t, n) => match other {
                Type::Array(u, m) => *t == *u && *n == *m,
                _ => false,
            },
            Type::Struct(fields) => match other {
                Type::Struct(others) => {
                    if fields.len() != others.len() {
                        return false;
                    }
                    let mut i: usize = 0;
                    while i < fields.len()
                        invariant
                            i <= fields.len(),
                            fields.len() == others.len(),
                            self@ == Shape::Struct(fields@),
                            other@ == Shape::Struct(others@),
                            forall|k: int| 0 <= k < i ==> fields@[k] == others@[k],
                        decreases fields.len() - i,
                    {
                        if fields[i] != others[i] {
                            return false;
                        }
                        i += 1;
                    }
                    assert(fields@ =~= others@);
                    true
                },
                _ => false,
            },
        }
    }

    /// A copy of the descriptor.
    pub fn duplicate(&self) -> (copy: Type)
        ensures
            copy@ == self@,
    {
        match self {
            Type::Scalar(p) => Type::Scalar(*p),
            Type::Vector(p, n) => Type::Vector(*p, *n),
            Type::Matrix(p, n) => Type::Matrix(*p, *n),
            Type::Array(t, n) => Type::Array(*t, *n),
            Type::Struct(fields) => {
                let mut copy: Vec<TypeId> = Vec::new();
                let mut i: usize = 0;
                while i < fields.len()
                    invariant
                        i <= fields.len(),
                        copy@ == fields@.take(i as int),
                    decreases fields.len() - i,
                {
                    copy.push(fields[i]);
                    assert(fields@.take(i + 1) =~= fields@.take(i as int).push(fields@[i as int]));
                    i += 1;
                }
                assert(fields@.take(fields.len() as int) =~= fields@);
                Type::Struct(copy)
            },
        }
    }

    /// Whether the descriptor is well formed against a table of `bound`
    /// entries.
    pub fn check(&self, bound: usize) -> (ok: bool)
        ensures
            ok == well_formed(self@, bound as nat),
    {
        match self {
            Type::Scalar(_) => true,
            Type::Vector(_, n) => MIN_ARITY <= *n && *n <= MAX_ARITY,
            Type::Matrix(_, n) => MIN_ARITY <= *n && *n <= MAX_ARITY,
            Type::Array(t, _) => t.index < bound,
            Type::Struct(fields) => {
                let mut i: usize = 0;
                while i < fields.len()
                    invariant
                        i <= fields.len(),
                        self@ == Shape::Struct(fields@),
                        forall|k: int| 0 <= k < i ==> (#[trigger] fields@[k]).index < bound,
                    decreases fields.len() - i,
                {
                    if fields[i].index >= bound {
                        assert(!all_below(fields@, bound as nat)) by {
                            assert(!((#[trigger] fields@[i as int]).index < bound));
                        }
                        return false;
                    }
                    i += 1;
                }
                true
            },
        }
    }
}

/// The table of interned types. Entries are only ever added.
#[derive(Debug)]
pub struct TypeRegistry {
    table: Vec<Type>,
}

impl View for TypeRegistry {
    type V = Seq<Shape>;

    closed spec fn view(&self) -> Seq<Shape> {
        Seq::new(self.table@.len(), |i: int| self.table@[i]@)
    }
}

impl TypeRegistry {
    /// The registry's invariant: it holds no descriptor twice, every entry
    /// is well formed against the entries before it, and identities fit
    /// the machine's index type.
    pub open spec fn wf(&self) -> bool {
        canonical(self@) && grounded(self@) && self@.len() <= usize::MAX
    }

    /// An empty registry.
    pub fn new() -> (registry: TypeRegistry)
        ensures
            registry@ == Seq::<Shape>::empty(),
            registry.wf(),
    {
        let registry = TypeRegistry { table: Vec::new() };
        assert(registry@ =~= Seq::<Shape>::empty());
        registry
    }

    /// The number of interned types.
    pub fn len(&self) -> (n: usize)
        ensures
            n == self@.len(),
    {
        self.table.len()
    }

    /// The position of the entry equal to `shape`, if there is one.
    pub fn find(&self, shape: &Type) -> (found: Option<TypeId>)
        requires
            self.wf(),
        ensures
            found.is_some() == self@.contains(shape@),
            found matches Some(id) ==> id.index == self@.index_of(shape@),
    {
        let mut i: usize = 0;
        while i < self.table.len()
            invariant
                i <= self.table.len(),
                self.wf(),
                forall|k: int| 0 <= k < i ==> self@[k] != shape@,
            decreases self.table.len() - i,
        {
            if self.table[i].same(shape) {
                assert(self@[i as int] == shape@);
                assert(self@.index_of(shape@) == i) by {
                    let j = self@.index_of(shape@);
                    assert(0 <= j < self@.len() && self@[j] == shape@);
                }
                return Some(TypeId { index: i });
            }
            i += 1;
        }
        None
    }

    /// Interns a descriptor and gives its identity. A descriptor that is
    /// structurally equal to an interned one gets that one's identity and
    /// leaves the table as it is; any other well-formed descriptor becomes
    /// the new last entry. Only a malformed descriptor is refused.
    pub fn register(&mut self, shape: Type) -> (result: Result<TypeId, Error>)
        requires
            old(self).wf(),
        ensures
            final(self).wf(),
            extends(old(self)@, final(self)@),
            match result {
                Ok(id) => well_formed(shape@, old(self)@.len()) && (final(self)@, id.index as nat)
                    == intern(old(self)@, shape@) && final(self)@[id.index as int] == shape@,
                Err(e) => e == Error::InvalidType && !well_formed(shape@, old(self)@.len())
                    && final(self)@ == old(self)@,
            },
    {
        if !shape.check(self.table.len()) {
            assert(old(self)@.take(old(self)@.len() as int) =~= old(self)@);
            return Err(Error::InvalidType);
        }
        match self.find(&shape) {
            Some(id) => {
                assert(old(self)@.take(old(self)@.len() as int) =~= old(self)@);
                Ok(id)
            },
            None => {
                let id = TypeId { index: self.table.len() };
                self.table.push(shape);
                assert(final(self)@ =~= old(self)@.push(shape@));
                assert(final(self)@.len() == self.table.len());
                assert(final(self)@.take(old(self)@.len() as int) =~= old(self)@);
                proof {
                    lemma_well_formed_grows(shape@, old(self)@.len(), old(self)@.len());
                }
                Ok(id)
            },
        }
    }

    /// The descriptor interned under `id`, if there is one.
    pub fn get(&self, id: TypeId) -> (found: Option<&Type>)
        ensures
            found.is_some() == (id.index < self@.len()),
            found matches Some(shape) ==> shape@ == self@[id.index as int],
    {
        if id.index < self.table.len() {
            Some(&self.table[id.index])
        } else {
            None
        }
    }
}

/// A descriptor that is well formed against a table stays so as the table
/// grows.
pub proof fn lemma_well_formed_grows(shape: Shape, bound: nat, later: nat)
    requires
        well_formed(shape, bound),
        bound <= later,
    ensures
        well_formed(shape, later),
{
}

/// Interning is idempotent: of two structurally equal descriptors the
/// second gets the identity the first one got, and interning it changes
/// the table no more.
pub proof fn lemma_intern_idempotent(table: Seq<Shape>, first: Shape, second: Shape)
    requires
        canonical(table),
        first == second,
    ensures
        intern(intern(table, first).0, second).1 == intern(table, first).1,
        intern(intern(table, first).0, second).0 == intern(table, first).0,
{
    let (once, id) = intern(table, first);
    if table.contains(first) {
    } else {
        assert(once[table.len() as int] == first);
        assert(once.contains(second));
        let j = once.index_of(second);
        assert(0 <= j < once.len() && once[j] == second);
        if j < table.len() {
            assert(table[j] == first);
            assert(table.contains(first));
        }
    }
}

/// Registering two structurally equal descriptors, one after the other,
/// gives one identity: whatever the registry held before, `register`
/// returns for the second what it returned for the first.
pub proof fn lemma_register_idempotent(table: Seq<Shape>, first: Type, second: Type)
    requires
        canonical(table),
        first@ == second@,
    ensures
        intern(intern(table, first@).0, second@).1 == intern(table, first@).1,
        intern(intern(table, first@).0, second@).0 == intern(table, first@).0,
{
    lemma_intern_idempotent(table, first@, second@);
}

} // verus!
