//! Resolving the terms of graph edges to identifiers.
//!
//! Named nodes get identifiers derived from their IRI and are queued for the
//! node sink; blank nodes get identifiers derived from their label in the
//! namespace of their file; literals get fresh random identifiers and a line of
//! the literal output. Each resolved edge adds one line to the edge output.
//! The generator collects these outputs; its caller drains and writes them.
use vstd::prelude::*;
use vstd::string::StringSliceAdditionalSpecFns;
use vstd::utf8::encode_utf8;
use crate::hashing::{
    blank_namespace_root, file_namespace, fresh, id_text, name_uuid, uuid_text,
    uuid_version, NodeId, BLANK_NAMESPACE_IRI, URL_NAMESPACE,
};
use crate::pgcode::{pg_encoded, write_pgencoded};
use crate::sink::SaveRequest;

verus! {

/// A term of an edge.
pub enum Term {
    /// A named node, by its IRI.
    Iri(String),
    /// A blank node, by its label in the file.
    Blank(String),
    /// A literal, by its text.
    Literal(String),
}

/// An edge: subject, predicate and object.
pub struct Triple {
    pub subject: Term,
    pub predicate: Term,
    pub object: Term,
}

/// Why an edge cannot be resolved.
#[derive(Debug, PartialEq, Eq, Clone, Copy, Structural)]
pub enum EdgeError {
    /// The predicate is not a named node.
    PredicateNotNamed,
}

/// The bytes of a string: its UTF-8 encoding.
pub open spec fn text_bytes(s: String) -> Seq<u8> {
    encode_utf8(s@)
}

/// The line of the literal output for a literal: its identifier, a tab, the
/// escaped text and a newline.
pub open spec fn literal_line(id: NodeId, text: Seq<u8>) -> Seq<u8> {
    uuid_text(id) + seq![9u8] + pg_encoded(text) + seq![10u8]
}

/// The line of the edge output: the three identifiers, tab-separated, and a newline.
pub open spec fn edge_line(s: NodeId, p: NodeId, o: NodeId) -> Seq<u8> {
    uuid_text(s) + seq![9u8] + uuid_text(p) + seq![9u8] + uuid_text(o) + seq![10u8]
}

/// The identifier of a named node.
pub open spec fn node_uuid(iri: String) -> NodeId {
    name_uuid(URL_NAMESPACE, text_bytes(iri))
}

/// The abstract state of a generator.
pub struct GeneratorState {
    pub blank_ns: NodeId,
    pub saves: Seq<SaveRequest>,
    pub literals: Seq<u8>,
    pub edges: Seq<u8>,
}

/// `id` is an identifier the rules allow for `t`: derived for a named or blank
/// node, random for a literal.
pub open spec fn resolves(blank_ns: NodeId, t: Term, id: NodeId) -> bool {
    match t {
        Term::Iri(iri) => id == node_uuid(iri),
        Term::Blank(label) => id == name_uuid(blank_ns, text_bytes(label)),
        Term::Literal(_) => uuid_version(id) == 4,
    }
}

/// The state after resolving `t` to `id`: a named node is queued for saving,
/// a literal is written to the literal output, a blank node leaves no trace.
pub open spec fn after_term(g: GeneratorState, t: Term, id: NodeId) -> GeneratorState {
    match t {
        Term::Iri(iri) => GeneratorState {
            saves: g.saves.push(SaveRequest::SaveNode(id, iri)),
            ..g
        },
        Term::Blank(_) => g,
        Term::Literal(text) => GeneratorState {
            literals: g.literals + literal_line(id, text_bytes(text)),
            ..g
        },
    }
}

/// Collects the identifiers and outputs of the edges of one input file.
pub struct IdGenerator {
    blank_ns: NodeId,
    saves: Vec<SaveRequest>,
    literals: Vec<u8>,
    edges: Vec<u8>,
}

impl View for IdGenerator {
    type V = GeneratorState;

    closed spec fn view(&self) -> GeneratorState {
        GeneratorState {
            blank_ns: self.blank_ns,
            saves: self.saves@,
            literals: self.literals@,
            edges: self.edges@,
        }
    }
}

/// What one resolved edge produced, ready to be written.
pub struct EdgeOutput {
    /// Save requests for the node sink, in the order of resolution.
    pub saves: Vec<SaveRequest>,
    /// Lines of the literal output.
    pub literals: Vec<u8>,
    /// Lines of the edge output.
    pub edges: Vec<u8>,
}

impl IdGenerator {
    /// A generator for the input file `name`, whose blank nodes are scoped to it.
    pub fn create(name: &str) -> (g: IdGenerator)
        ensures
            g@.blank_ns == name_uuid(
                name_uuid(URL_NAMESPACE, BLANK_NAMESPACE_IRI.spec_bytes()),
                name.spec_bytes(),
            ),
            g@.saves.len() == 0,
            g@.literals.len() == 0,
            g@.edges.len() == 0,
    {
        let root = blank_namespace_root();
        IdGenerator {
            blank_ns: file_namespace(root, name),
            saves: Vec::new(),
            literals: Vec::new(),
            edges: Vec::new(),
        }
    }

    /// The identifier of a named node, which is queued for saving.
    pub fn node_id(&mut self, iri: &String) -> (id: NodeId)
        ensures
            id == node_uuid(*iri),
            final(self)@ == after_term(old(self)@, Term::Iri(*iri), id),
    {
        let id = crate::hashing::derive(URL_NAMESPACE, iri.as_str().as_bytes());
        self.saves.push(SaveRequest::SaveNode(id, iri.clone()));
        id
    }

    /// The identifier of a blank node of this file.
    pub fn blank_id(&self, label: &String) -> (id: NodeId)
        ensures
            id == name_uuid(self@.blank_ns, text_bytes(*label)),
    {
        crate::hashing::derive(self.blank_ns, label.as_str().as_bytes())
    }

    /// Write the literal-output line of a literal with the identifier `id`.
    pub fn record_literal(&mut self, id: NodeId, text: &String)
        ensures
            final(self)@ == after_term(old(self)@, Term::Literal(*text), id),
    {
        let line = id_text(id);
        let ghost start = self.literals@;
        append_bytes(&mut self.literals, &line);
        self.literals.push(9u8);
        write_pgencoded(&mut self.literals, text.as_str().as_bytes());
        self.literals.push(10u8);
        assert(self.literals@ =~= start + literal_line(id, text_bytes(*text)));
    }

    /// A fresh identifier for a literal, whose line is written to the literal output.
    pub fn lit_id(&mut self, text: &String) -> (id: NodeId)
        ensures
            uuid_version(id) == 4,
            final(self)@ == after_term(old(self)@, Term::Literal(*text), id),
    {
        let id = fresh();
        self.record_literal(id, text);
        id
    }

    /// Resolve any term.
    pub fn term_id(&mut self, t: &Term) -> (id: NodeId)
        ensures
            resolves(old(self)@.blank_ns, *t, id),
            final(self)@ == after_term(old(self)@, *t, id),
    {
        match t {
            Term::Iri(iri) => self.node_id(iri),
            Term::Blank(label) => self.blank_id(label),
            Term::Literal(text) => self.lit_id(text),
        }
    }

    /// Resolve the subject of an edge.
    pub fn subj_id(&mut self, t: &Term) -> (id: NodeId)
        ensures
            resolves(old(self)@.blank_ns, *t, id),
            final(self)@ == after_term(old(self)@, *t, id),
    {
        self.term_id(t)
    }

    /// Resolve the predicate of an edge, which must be a named node.
    pub fn pred_id(&mut self, t: &Term) -> (r: Result<NodeId, EdgeError>)
        ensures
            match r {
                Ok(id) => t is Iri && resolves(old(self)@.blank_ns, *t, id) && final(self)@
                    == after_term(old(self)@, *t, id),
                Err(e) => {
                    &&& !(t is Iri)
                    &&& e == EdgeError::PredicateNotNamed
                    &&& final(self)@ == old(self)@
                },
            },
    {
        match t {
            Term::Iri(iri) => Ok(self.node_id(iri)),
            _ => Err(EdgeError::PredicateNotNamed),
        }
    }

    /// Resolve the object of an edge.
    pub fn obj_id(&mut self, t: &Term) -> (id: NodeId)
        ensures
            resolves(old(self)@.blank_ns, *t, id),
            final(self)@ == after_term(old(self)@, *t, id),
    {
        self.term_id(t)
    }

    /// Resolve an edge: its three identifiers, in the order subject,
    /// predicate, object, and its line of the edge output. An edge whose
    /// predicate is not a named node is refused and leaves no output at all.
    pub fn process_triple(&mut self, t: &Triple) -> (r: Result<(NodeId, NodeId, NodeId), EdgeError>)
        ensures
            match r {
                Ok((s, p, o)) => {
                    let g0 = old(self)@;
                    let g1 = after_term(g0, t.subject, s);
                    let g2 = after_term(g1, t.predicate, p);
                    let g3 = after_term(g2, t.object, o);
                    &&& t.predicate is Iri
                    &&& resolves(g0.blank_ns, t.subject, s)
                    &&& resolves(g0.blank_ns, t.predicate, p)
                    &&& resolves(g0.blank_ns, t.object, o)
                    &&& final(self)@ == GeneratorState { edges: g3.edges + edge_line(s, p, o), ..g3 }
                },
                Err(e) => {
                    &&& !(t.predicate is Iri)
                    &&& e == EdgeError::PredicateNotNamed
                    &&& final(self)@ == old(self)@
                },
            },
    {
        if !matches!(t.predicate, Term::Iri(_)) {
            return Err(EdgeError::PredicateNotNamed);
        }
        let s = self.subj_id(&t.subject);
        let p = match self.pred_id(&t.predicate) {
            Ok(p) => p,
            Err(e) => return Err(e),
        };
        let o = self.obj_id(&t.object);
        let ghost before = self.edges@;
        let st = id_text(s);
        let pt = id_text(p);
        let ot = id_text(o);
        append_bytes(&mut self.edges, &st);
        self.edges.push(9u8);
        append_bytes(&mut self.edges, &pt);
        self.edges.push(9u8);
        append_bytes(&mut self.edges, &ot);
        self.edges.push(10u8);
        assert(self.edges@ =~= before + edge_line(s, p, o));
        Ok((s, p, o))
    }

    /// Hand out the collected outputs and start collecting afresh.
    pub fn drain(&mut self) -> (out: EdgeOutput)
        ensures
            out.saves@ == old(self)@.saves,
            out.literals@ == old(self)@.literals,
            out.edges@ == old(self)@.edges,
            final(self)@.blank_ns == old(self)@.blank_ns,
            final(self)@.saves.len() == 0,
            final(self)@.literals.len() == 0,
            final(self)@.edges.len() == 0,
    {
        let mut saves: Vec<SaveRequest> = Vec::new();
        let mut literals: Vec<u8> = Vec::new();
        let mut edges: Vec<u8> = Vec::new();
        std::mem::swap(&mut saves, &mut self.saves);
        std::mem::swap(&mut literals, &mut self.literals);
        std::mem::swap(&mut edges, &mut self.edges);
        EdgeOutput { saves, literals, edges }
    }
}

/// Append `src` to `dst`.
fn append_bytes(dst: &mut Vec<u8>, src: &Vec<u8>)
    ensures
        final(dst)@ == old(dst)@ + src@,
{
    let ghost start = dst@;
    for i in 0..src.len()
        invariant
            dst@ == start + src@.take(i as int),
    {
        dst.push(src[i]);
        assert(src@.take(i + 1) =~= src@.take(i as int).push(src@[i as int]));
    }
    assert(src@.take(src@.len() as int) =~= src@);
}

} // verus!
