//! Type expressions: the executable form and the mathematical model that
//! contracts speak of.

use vstd::prelude::*;
use crate::text::{join, opt_view, strs_view};

verus! {

/// A resolved type expression.
#[derive(Debug)]
pub enum RustType {
    Primitive(String),
    Generic(String),
    Reference { lifetime: Option<String>, mutable: bool, inner: Box<RustType> },
    Tuple(Vec<RustType>),
    Slice(Box<RustType>),
    Array { inner: Box<RustType>, size: String },
    Path { path: String, generics: Vec<RustType> },
    RawPointer { mutable: bool, inner: Box<RustType> },
    QualifiedPath { base: String, name: String },
    DynTrait { traits: Vec<String>, lifetime: Option<String> },
    Unit,
    Unknown,
}

/// The model of a [`RustType`]: strings become character sequences.
pub enum TypeV {
    Primitive(Seq<char>),
    Generic(Seq<char>),
    Reference { lifetime: Option<Seq<char>>, mutable: bool, inner: Box<TypeV> },
    Tuple(Seq<TypeV>),
    Slice(Box<TypeV>),
    Array { inner: Box<TypeV>, size: Seq<char> },
    Path { path: Seq<char>, generics: Seq<TypeV> },
    RawPointer { mutable: bool, inner: Box<TypeV> },
    QualifiedPath { base: Seq<char>, name: Seq<char> },
    DynTrait { traits: Seq<Seq<char>>, lifetime: Option<Seq<char>> },
    Unit,
    Unknown,
}

pub open spec fn type_view(t: RustType) -> TypeV
    decreases t,
{
    match t {
        RustType::Primitive(s) => TypeV::Primitive(s@),
        RustType::Generic(s) => TypeV::Generic(s@),
        RustType::Reference { lifetime, mutable, inner } => TypeV::Reference {
            lifetime: opt_view(lifetime),
            mutable,
            inner: Box::new(type_view(*inner)),
        },
        RustType::Tuple(es) => TypeV::Tuple(types_view(es@)),
        RustType::Slice(inner) => TypeV::Slice(Box::new(type_view(*inner))),
        RustType::Array { inner, size } => TypeV::Array {
            inner: Box::new(type_view(*inner)),
            size: size@,
        },
        RustType::Path { path, generics } => TypeV::Path {
            path: path@,
            generics: types_view(generics@),
        },
        RustType::RawPointer { mutable, inner } => TypeV::RawPointer {
            mutable,
            inner: Box::new(type_view(*inner)),
        },
        RustType::QualifiedPath { base, name } => TypeV::QualifiedPath {
            base: base@,
            name: name@,
        },
        RustType::DynTrait { traits, lifetime } => TypeV::DynTrait {
            traits: strs_view(traits@),
            lifetime: opt_view(lifetime),
        },
        RustType::Unit => TypeV::Unit,
        RustType::Unknown => TypeV::Unknown,
    }
}

pub open spec fn types_view(ts: Seq<RustType>) -> Seq<TypeV>
    decreases ts,
{
    if ts.len() == 0 {
        Seq::empty()
    } else {
        proof {
            assert(ts.drop_last() == ts.subrange(0, ts.len() - 1));
        }
        types_view(ts.drop_last()).push(type_view(ts.last()))
    }
}

impl View for RustType {
    type V = TypeV;

    open spec fn view(&self) -> TypeV {
        type_view(*self)
    }
}

} // verus!

verus! {

/// A lifetime name with its leading apostrophe, added when missing.
pub open spec fn lifetime_text(l: Seq<char>) -> Seq<char> {
    if l.len() > 0 && l[0] == '\'' {
        l
    } else {
        "'"@ + l
    }
}

/// Appends a lifetime name with its leading apostrophe.
pub fn write_lifetime(out: &mut String, l: &String)
    ensures
        final(out)@ == old(out)@ + lifetime_text(l@),
{
    let ghost start = out@;
    let cs = crate::text::chars_of(l.as_str());
    if !(cs.len() > 0 && cs[0] == '\'') {
        out.append("'");
    }
    out.append(l.as_str());
    assert(out@ =~= start + lifetime_text(l@));
}

/// The declaration syntax of a type expression.
pub open spec fn type_text(t: TypeV) -> Seq<char>
    decreases t,
{
    match t {
        TypeV::Primitive(n) => n,
        TypeV::Generic(n) => n,
        TypeV::Reference { lifetime, mutable, inner } => "&"@ + (match lifetime {
            Some(l) => lifetime_text(l) + " "@,
            None => Seq::empty(),
        }) + (if mutable {
            "mut "@
        } else {
            Seq::empty()
        }) + type_text(*inner),
        TypeV::Tuple(es) => if es.len() == 0 {
            "()"@
        } else {
            "("@ + types_text(es) + ")"@
        },
        TypeV::Slice(inner) => "["@ + type_text(*inner) + "]"@,
        TypeV::Array { inner, size } => "["@ + type_text(*inner) + "; "@ + size + "]"@,
        TypeV::Path { path, generics } => if generics.len() == 0 {
            path
        } else {
            path + "<"@ + types_text(generics) + ">"@
        },
        TypeV::RawPointer { mutable, inner } => (if mutable {
            "*mut "@
        } else {
            "*const "@
        }) + type_text(*inner),
        TypeV::QualifiedPath { base, name } => base + "::"@ + name,
        TypeV::DynTrait { traits, lifetime } => "dyn "@ + (match lifetime {
            Some(l) => lifetime_text(l) + " "@,
            None => Seq::empty(),
        }) + join(traits, " + "@),
        TypeV::Unit => "()"@,
        TypeV::Unknown => "..."@,
    }
}

/// The texts of `ts`, separated by `", "`.
pub open spec fn types_text(ts: Seq<TypeV>) -> Seq<char>
    decreases ts,
{
    if ts.len() == 0 {
        Seq::empty()
    } else if ts.len() == 1 {
        type_text(ts[0])
    } else {
        proof {
            assert(ts.drop_last() == ts.subrange(0, ts.len() - 1));
        }
        types_text(ts.drop_last()) + ", "@ + type_text(ts.last())
    }
}

pub proof fn lemma_types_view_len(ts: Seq<RustType>)
    ensures
        types_view(ts).len() == ts.len(),
    decreases ts.len(),
{
    if ts.len() > 0 {
        lemma_types_view_len(ts.drop_last());
    }
}

proof fn lemma_types_view_take(ts: Seq<RustType>, i: int)
    requires
        0 <= i < ts.len(),
    ensures
        types_view(ts.take(i + 1)) == types_view(ts.take(i)).push(type_view(ts[i])),
        types_view(ts.take(i)).len() == i,
    decreases i,
{
    assert(ts.take(i + 1).drop_last() == ts.take(i));
    if i > 0 {
        lemma_types_view_take(ts, i - 1);
    }
}

impl RustType {
    /// Appends the declaration syntax of this type to `out`.
    pub fn write_text(&self, out: &mut String)
        ensures
            final(out)@ == old(out)@ + type_text(self@),
        decreases self,
    {
        let ghost start = out@;
        match self {
            RustType::Primitive(n) => out.append(n.as_str()),
            RustType::Generic(n) => out.append(n.as_str()),
            RustType::Reference { lifetime, mutable, inner } => {
                out.append("&");
                if let Some(l) = lifetime {
                    write_lifetime(out, l);
                    out.append(" ");
                }
                if *mutable {
                    out.append("mut ");
                }
                inner.write_text(out);
            },
            RustType::Tuple(es) => {
                proof {
                    lemma_types_view_len(es@);
                }
                if es.len() == 0 {
                    out.append("()");
                } else {
                    out.append("(");
                    write_types(es, out);
                    out.append(")");
                }
            },
            RustType::Slice(inner) => {
                out.append("[");
                inner.write_text(out);
                out.append("]");
            },
            RustType::Array { inner, size } => {
                out.append("[");
                inner.write_text(out);
                out.append("; ");
                out.append(size.as_str());
                out.append("]");
            },
            RustType::Path { path, generics } => {
                proof {
                    lemma_types_view_len(generics@);
                }
                out.append(path.as_str());
                if generics.len() > 0 {
                    out.append("<");
                    write_types(generics, out);
                    out.append(">");
                }
            },
            RustType::RawPointer { mutable, inner } => {
                if *mutable {
                    out.append("*mut ");
                } else {
                    out.append("*const ");
                }
                inner.write_text(out);
            },
            RustType::QualifiedPath { base, name } => {
                out.append(base.as_str());
                out.append("::");
                out.append(name.as_str());
            },
            RustType::DynTrait { traits, lifetime } => {
                out.append("dyn ");
                if let Some(l) = lifetime {
                    write_lifetime(out, l);
                    out.append(" ");
                }
                crate::text::push_joined(out, traits, " + ");
            },
            RustType::Unit => out.append("()"),
            RustType::Unknown => out.append("..."),
        }
        assert(out@ =~= start + type_text(self@));
    }

    /// The declaration syntax of this type.
    pub fn text(&self) -> (r: String)
        ensures
            r@ == type_text(self@),
    {
        let mut out = String::new();
        self.write_text(&mut out);
        out
    }
}

/// Appends the texts of `ts`, separated by `", "`.
pub fn write_types(ts: &Vec<RustType>, out: &mut String)
    ensures
        final(out)@ == old(out)@ + types_text(types_view(ts@)),
    decreases ts,
{
    let ghost start = out@;
    let mut i: usize = 0;
    while i < ts.len()
        invariant
            0 <= i <= ts@.len(),
            out@ == start + types_text(types_view(ts@.take(i as int))),
        decreases ts@.len() - i,
    {
        proof {
            lemma_types_view_take(ts@, i as int);
            let prev = types_view(ts@.take(i as int));
            assert(prev.push(type_view(ts@[i as int])).drop_last() == prev);
        }
        if i > 0 {
            out.append(", ");
        }
        ts[i].write_text(out);
        i = i + 1;
    }
    assert(ts@.take(i as int) == ts@);
}

} // verus!
