use crate::remote_functions::FunctionType;
use crate::remote_functions::RemoteFunction;
use vstd::prelude::*;

verus! {

/// The session-side registry of pass-through callables, by kind: the
/// adapter's record of what this session has registered with the execution
/// engine. The engine's own work — planning, execution, the
/// semantic-to-physical SQL transform, and the mapping of declared return
/// types into its native type system — happens in the engine, outside this
/// library.
#[derive(Clone, Debug, Hash)]
pub struct EngineSession {
    pub scalar: Vec<String>,
    pub aggregate: Vec<String>,
    pub window: Vec<String>,
}

impl EngineSession {
    /// The registered names of one kind, in registration order.
    pub open spec fn names_of(&self, kind: FunctionType) -> Seq<Seq<char>> {
        match kind {
            FunctionType::Scalar => self.scalar.deep_view(),
            FunctionType::Aggregate => self.aggregate.deep_view(),
            FunctionType::Window => self.window.deep_view(),
        }
    }

    /// A fresh session with nothing registered.
    pub fn new() -> (r: EngineSession)
        ensures
            forall|k: FunctionType| r.names_of(k) == Seq::<Seq<char>>::empty(),
    {
        let r = EngineSession { scalar: Vec::new(), aggregate: Vec::new(), window: Vec::new() };
        proof {
            assert forall|k: FunctionType| r.names_of(k) == Seq::<Seq<char>>::empty() by {
                assert(r.names_of(k) =~= Seq::<Seq<char>>::empty());
            }
        }
        r
    }

    /// Register a pass-through callable of the given kind under a name.
    pub fn register(&mut self, kind: FunctionType, name: String)
        ensures
            final(self).names_of(kind) == old(self).names_of(kind).push(name@),
            forall|k: FunctionType| k != kind ==> final(self).names_of(k) == old(self).names_of(
                k,
            ),
    {
        let ghost pre = *self;
        match kind {
            FunctionType::Scalar => self.scalar.push(name),
            FunctionType::Aggregate => self.aggregate.push(name),
            FunctionType::Window => self.window.push(name),
        }
        proof {
            assert(self.scalar.deep_view() =~= if kind == FunctionType::Scalar {
                pre.scalar.deep_view().push(self.scalar@.last()@)
            } else {
                pre.scalar.deep_view()
            });
            assert(self.aggregate.deep_view() =~= if kind == FunctionType::Aggregate {
                pre.aggregate.deep_view().push(self.aggregate@.last()@)
            } else {
                pre.aggregate.deep_view()
            });
            assert(self.window.deep_view() =~= if kind == FunctionType::Window {
                pre.window.deep_view().push(self.window@.last()@)
            } else {
                pre.window.deep_view()
            });
        }
    }

    /// Register one remote function as a pass-through callable of its kind.
    pub fn register_remote_function(&mut self, f: &RemoteFunction)
        ensures
            final(self).names_of(f.function_type) == old(self).names_of(f.function_type).push(
                f.name@,
            ),
            forall|k: FunctionType| k != f.function_type ==> final(self).names_of(k) == old(
                self,
            ).names_of(k),
    {
        self.register(f.function_type, f.name.clone());
    }

    /// List the registered callables of one kind.
    pub fn list(&self, kind: FunctionType) -> (r: &Vec<String>)
        ensures
            r.deep_view() == self.names_of(kind),
    {
        match kind {
            FunctionType::Scalar => &self.scalar,
            FunctionType::Aggregate => &self.aggregate,
            FunctionType::Window => &self.window,
        }
    }
}

} // verus!
