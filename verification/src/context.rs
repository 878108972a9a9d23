use crate::catalog::entry_valid;
use crate::catalog::has_entry_named;
use crate::catalog::merge_catalog;
use crate::catalog::names_unique;
use crate::catalog::FunctionCatalogEntry;
use crate::engine::EngineSession;
use crate::errors::CoreError;
use crate::errors::ErrorKind;
use crate::limit;
use crate::limit::capped_statement;
use crate::limit::limit_clauses;
use crate::limit::parsed_statements;
use crate::limit::rendered_statement;
use crate::limit::spec_decide;
use crate::limit::sql_statement_count;
use crate::limit::LimitClauseV;
use crate::remote_functions::csv_rows;
use crate::remote_functions::load_remote_functions;
use crate::remote_functions::spec_catalog;
use crate::remote_functions::FunctionType;
use crate::remote_functions::RemoteFunction;
use crate::remote_functions::RemoteFunctionV;
use std::sync::Arc;
use vstd::prelude::*;

verus! {

/// The validated, immutable in-memory form of a manifest: the decoded,
/// well-formed document handed to the engine's analyzer. Never mutated after
/// construction; clones of the session context share one copy.
#[derive(Debug, Hash)]
pub struct AnalyzedModel {
    pub manifest: Vec<u8>,
}

impl View for AnalyzedModel {
    type V = Seq<u8>;

    open spec fn view(&self) -> Seq<u8> {
        self.manifest@
    }
}

/// What the base64 decoder makes of an encoded manifest: `None` when the
/// text is not valid standard base64, otherwise the decoded bytes.
pub uninterp spec fn base64_decoded(s: Seq<char>) -> Option<Seq<u8>>;

/// Relies on the base64 crate's standard-alphabet engine: decodes the
/// encoded manifest; success and the bytes are a function of the text alone.
#[verifier::external_body]
fn decode_base64(s: &str) -> (r: Option<Vec<u8>>)
    ensures
        r matches Some(v) ==> base64_decoded(s@) == Some(v@),
        r is None <==> base64_decoded(s@) is None,
{
    base64::Engine::decode(&base64::engine::general_purpose::STANDARD, s).ok()
}

/// Does a byte sequence hold one well-formed JSON document?
pub uninterp spec fn json_well_formed(bytes: Seq<u8>) -> bool;

/// Relies on serde_json's `from_slice`, read into a generic JSON value:
/// whether the decoded manifest is one well-formed JSON document.
#[verifier::external_body]
fn check_json(bytes: &Vec<u8>) -> (r: bool)
    ensures
        r == json_well_formed(bytes@),
{
    serde_json::from_slice::<serde_json::Value>(bytes.as_slice()).is_ok()
}

/// Can an encoded manifest be bound to a model? It must decode as standard
/// base64 into one well-formed document.
pub open spec fn manifest_binds(s: Seq<char>) -> bool {
    &&& base64_decoded(s) is Some
    &&& (base64_decoded(s) matches Some(b) && json_well_formed(b))
}

/// The names of a catalog's functions of one kind, in catalog order.
pub open spec fn names_of_kind(fs: Seq<RemoteFunctionV>, kind: FunctionType) -> Seq<Seq<char>>
    decreases fs.len(),
{
    if fs.len() == 0 {
        Seq::empty()
    } else {
        let rest = names_of_kind(fs.drop_last(), kind);
        if fs.last().function_type == kind {
            rest.push(fs.last().name)
        } else {
            rest
        }
    }
}

/// The session façade: one analyzed model (or none, for the default empty
/// model), the remote-function catalog, and the engine-session registry.
/// Immutable once constructed; a new context must be constructed to change
/// the model or the function set.
#[derive(Clone, Debug, Hash)]
pub struct SessionContext {
    pub session: EngineSession,
    pub model: Option<Arc<AnalyzedModel>>,
    pub remote_functions: Vec<RemoteFunction>,
}

impl SessionContext {
    /// Create a session context.
    ///
    /// Without an encoded manifest the context carries the default empty
    /// model, and nothing is registered with the engine session. With one,
    /// the manifest must decode and hold one well-formed document — anything
    /// else fails construction entirely, before any engine session state is
    /// built — and every remote function is then registered as a
    /// pass-through callable of its kind.
    ///
    /// The remote-function catalog is read from the raw bytes of a tabular
    /// source; rows that fail to load are skipped, never fatal.
    pub fn new(mdl_base64: Option<&str>, remote_functions_csv: Option<&[u8]>) -> (r: Result<
        SessionContext,
        CoreError,
    >)
        ensures
            mdl_base64 is None ==> r is Ok,
            (mdl_base64 matches Some(m) && manifest_binds(m@)) ==> r is Ok,
            match r {
                Ok(ctx) => {
                    &&& (remote_functions_csv matches Some(d) ==> ctx.remote_functions.deep_view()
                        == spec_catalog(csv_rows(d@)))
                    &&& (remote_functions_csv is None ==> ctx.remote_functions.deep_view()
                        == Seq::<RemoteFunctionV>::empty())
                    &&& (mdl_base64 is None ==> ctx.model is None && (forall|k: FunctionType|
                        ctx.session.names_of(k) == Seq::<Seq<char>>::empty()))
                    &&& (mdl_base64 matches Some(m) ==> {
                        &&& manifest_binds(m@)
                        &&& (ctx.model matches Some(am) && base64_decoded(m@) == Some(am@))
                        &&& (forall|k: FunctionType| ctx.session.names_of(k) == names_of_kind(
                            ctx.remote_functions.deep_view(),
                            k,
                        ))
                    })
                },
                Err(e) => {
                    &&& (mdl_base64 matches Some(m) && !manifest_binds(m@))
                    &&& e.kind == ErrorKind::ManifestDecode
                },
            },
    {
        let remote_functions = match remote_functions_csv {
            None => Vec::new(),
            Some(d) => load_remote_functions(d),
        };
        let m = match mdl_base64 {
            None => {
                return Ok(
                    SessionContext { session: EngineSession::new(), model: None, remote_functions },
                );
            },
            Some(m) => m,
        };
        let bytes = match decode_base64(m) {
            None => {
                return Err(
                    CoreError::new(
                        ErrorKind::ManifestDecode,
                        "Failed to decode the manifest encoding".to_owned(),
                    ),
                );
            },
            Some(b) => b,
        };
        if !check_json(&bytes) {
            return Err(
                CoreError::new(
                    ErrorKind::ManifestDecode,
                    "The decoded manifest is not one well-formed document".to_owned(),
                ),
            );
        }
        let model = Arc::new(AnalyzedModel { manifest: bytes });
        let mut session = EngineSession::new();
        let ghost fsv = remote_functions.deep_view();
        let mut i: usize = 0;
        proof {
            assert(fsv.take(0) =~= Seq::<RemoteFunctionV>::empty());
        }
        while i < remote_functions.len()
            invariant
                i <= remote_functions@.len(),
                fsv == remote_functions.deep_view(),
                fsv.len() == remote_functions@.len(),
                forall|k: FunctionType| session.names_of(k) == names_of_kind(
                    fsv.take(i as int),
                    k,
                ),
            decreases remote_functions@.len() - i,
        {
            let f = &remote_functions[i];
            let ghost pre = session;
            session.register_remote_function(f);
            proof {
                assert(fsv.take(i + 1).drop_last() =~= fsv.take(i as int));
                assert(fsv.take(i + 1).last() == fsv[i as int]);
                assert(fsv[i as int] == remote_functions@[i as int].deep_view());
                assert(f.function_type == fsv[i as int].function_type);
                assert(f.name@ == fsv[i as int].name);
                assert forall|k: FunctionType| session.names_of(k) == names_of_kind(
                    fsv.take(i + 1),
                    k,
                ) by {
                    if k == f.function_type {
                        assert(session.names_of(k) == pre.names_of(k).push(f.name@));
                    } else {
                        assert(session.names_of(k) == pre.names_of(k));
                    }
                }
            }
            i = i + 1;
        }
        proof {
            assert(fsv.take(remote_functions@.len() as int) =~= fsv);
        }
        Ok(SessionContext { session, model: Some(model), remote_functions })
    }

    /// The available functions: the deduplicated union of the remote-function
    /// catalog and everything the engine session has registered, keyed by
    /// name. A name in both sources keeps the remote catalog's entry with its
    /// metadata; a name known only to the session contributes a bare entry of
    /// its discovered kind. Every name appears, and appears exactly once; no
    /// order is promised.
    pub fn get_available_functions(&self) -> (r: Vec<FunctionCatalogEntry>)
        ensures
            names_unique(r.deep_view()),
            forall|e: int| #![trigger r.deep_view()[e]]
                0 <= e < r.deep_view().len() ==> entry_valid(
                    self.remote_functions.deep_view(),
                    self.session.names_of(FunctionType::Scalar),
                    self.session.names_of(FunctionType::Aggregate),
                    self.session.names_of(FunctionType::Window),
                    r.deep_view()[e],
                ),
            forall|i: int| 0 <= i < self.remote_functions.deep_view().len() ==> has_entry_named(
                r.deep_view(),
                self.remote_functions.deep_view()[i].name,
            ),
            forall|k: FunctionType, i: int|
                #![trigger self.session.names_of(k)[i]]
                0 <= i < self.session.names_of(k).len() ==> has_entry_named(
                    r.deep_view(),
                    self.session.names_of(k)[i],
                ),
    {
        let r = merge_catalog(&self.remote_functions, &self.session);
        proof {
            assert forall|k: FunctionType, i: int|
                #![trigger self.session.names_of(k)[i]]
                0 <= i < self.session.names_of(k).len() implies has_entry_named(
                r.deep_view(),
                self.session.names_of(k)[i],
            ) by {
                match k {
                    FunctionType::Scalar => {},
                    FunctionType::Aggregate => {},
                    FunctionType::Window => {},
                }
            }
        }
        r
    }

    /// Rewrite SQL under the maximum row-count policy. The rewrite is purely
    /// syntactic, independent of the bound model; with no ceiling the input
    /// comes back verbatim, unparsed.
    pub fn pushdown_limit(&self, sql: &str, limit: Option<usize>) -> (r: Result<String, CoreError>)
        ensures
            limit is None ==> (r matches Ok(s) && s@ == sql@),
            limit is Some ==> ((r is Ok) <==> sql_statement_count(sql@) == Some(1nat)),
            limit matches Some(c) ==> (parsed_statements(sql@) matches Some(ss) ==> (ss.len() == 1
                ==> (r matches Ok(s) && s@ == rendered_statement(capped_statement(ss[0], c))
                && limit_clauses(capped_statement(ss[0], c)) == limit_clauses(ss[0]).map_values(
                |cl: LimitClauseV| spec_decide(cl, c),
            )))),
            r matches Err(e) ==> e.kind == ErrorKind::SqlParse,
    {
        limit::pushdown_limit(sql, limit)
    }
}

impl Default for SessionContext {
    /// The default context: the empty model, an empty catalog, and a fresh
    /// engine session.
    fn default() -> (r: SessionContext)
        ensures
            r.model is None,
            r.remote_functions@.len() == 0,
            forall|k: FunctionType| r.session.names_of(k) == Seq::<Seq<char>>::empty(),
    {
        SessionContext {
            session: EngineSession::new(),
            model: None,
            remote_functions: Vec::new(),
        }
    }
}

} // verus!
