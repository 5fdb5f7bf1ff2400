//! Asset collections: a declared group of asset fields, each located either
//! by a static path or through a dynamically registered key, together with
//! the load-start resolution that turns the declaration into the list of
//! concrete paths the asset engine must load.

use vstd::prelude::*;

use crate::keys::AssetKeys;

verus! {

/// Where one asset of a collection is found: at a fixed path, or at the path
/// a dynamic key resolves to when loading starts. An optional keyed field is
/// skipped, rather than failing, when its key was never registered.
pub enum AssetLocator {
    /// A static asset path, fixed when the collection is declared.
    Path(String),
    /// A dynamic key, resolved against the key registry at load-start time.
    Key { key: String, optional: bool },
}

/// A declared collection of assets: the ordered fields whose loads are
/// started together when a loading phase is entered.
pub struct AssetCollection {
    /// The collection's fields, in declaration order.
    pub fields: Vec<AssetLocator>,
}

/// Fault raised at load-start time: a non-optional field referenced a
/// dynamic key that was never registered. Loading cannot silently proceed
/// with an undefined asset, so the whole load-start of that collection is
/// aborted and no handle is started for it.
#[derive(Debug)]
pub struct MissingKey {
    /// The key that had no registered path.
    pub key: String,
}

/// Whether one field can be resolved against the registry: static paths
/// always can, a keyed field when its key is registered or it is optional.
pub open spec fn locator_resolvable(l: AssetLocator, reg: Map<Seq<char>, Seq<char>>) -> bool {
    match l {
        AssetLocator::Path(_) => true,
        AssetLocator::Key { key, optional } => optional || reg.contains_key(key@),
    }
}

/// Whether load-start succeeds: every field of the collection resolves.
pub open spec fn resolve_ok(fields: Seq<AssetLocator>, reg: Map<Seq<char>, Seq<char>>) -> bool {
    forall|j: int| 0 <= j < fields.len() ==> locator_resolvable(#[trigger] fields[j], reg)
}

/// The paths one field contributes: its static path, the path its key
/// resolves to, or nothing for an optional field whose key is unset.
pub open spec fn locator_paths(l: AssetLocator, reg: Map<Seq<char>, Seq<char>>) -> Seq<Seq<char>> {
    match l {
        AssetLocator::Path(p) => seq![p@],
        AssetLocator::Key { key, optional } => if reg.contains_key(key@) {
            seq![reg[key@]]
        } else {
            Seq::empty()
        },
    }
}

/// The concrete paths a collection's load-start issues, in field order.
pub open spec fn resolved_paths(
    fields: Seq<AssetLocator>,
    reg: Map<Seq<char>, Seq<char>>,
) -> Seq<Seq<char>>
    decreases fields.len(),
{
    if fields.len() == 0 {
        Seq::empty()
    } else {
        resolved_paths(fields.drop_last(), reg) + locator_paths(fields.last(), reg)
    }
}

/// The key of the first field, in declaration order, that fails to resolve.
pub open spec fn first_missing(
    fields: Seq<AssetLocator>,
    reg: Map<Seq<char>, Seq<char>>,
) -> Option<Seq<char>>
    decreases fields.len(),
{
    if fields.len() == 0 {
        None
    } else if !locator_resolvable(fields[0], reg) {
        match fields[0] {
            AssetLocator::Key { key, optional } => Some(key@),
            AssetLocator::Path(_) => None,
        }
    } else {
        first_missing(fields.drop_first(), reg)
    }
}

proof fn lemma_first_missing_at(fields: Seq<AssetLocator>, reg: Map<Seq<char>, Seq<char>>, i: int)
    requires
        0 <= i < fields.len(),
        forall|j: int| 0 <= j < i ==> locator_resolvable(#[trigger] fields[j], reg),
        !locator_resolvable(fields[i], reg),
    ensures
        first_missing(fields, reg) == (match fields[i] {
            AssetLocator::Key { key, optional } => Some(key@),
            AssetLocator::Path(_) => None,
        }),
    decreases i,
{
    if i > 0 {
        assert(fields.drop_first()[i - 1] == fields[i]);
        assert forall|j: int| 0 <= j < i - 1 implies locator_resolvable(
            #[trigger] fields.drop_first()[j],
            reg,
        ) by {
            assert(fields.drop_first()[j] == fields[j + 1]);
        }
        lemma_first_missing_at(fields.drop_first(), reg, i - 1);
    }
}

/// Start-load resolution for one collection: for every field, in declaration
/// order, the concrete path the asset engine is to load. A non-optional
/// field whose dynamic key is unregistered aborts the whole call with
/// [`MissingKey`]; an optional one is skipped.
pub fn resolve_collection(collection: &AssetCollection, keys: &AssetKeys) -> (r: Result<
    Vec<String>,
    MissingKey,
>)
    ensures
        r is Ok <==> resolve_ok(collection.fields@, keys@),
        r matches Ok(paths) ==> paths.deep_view() == resolved_paths(collection.fields@, keys@),
        r matches Err(e) ==> Some(e.key@) == first_missing(collection.fields@, keys@),
{
    let ghost fields = collection.fields@;
    let ghost reg = keys@;
    let mut paths: Vec<String> = Vec::new();
    let mut i: usize = 0;
    proof {
        assert(fields.take(0) =~= Seq::<AssetLocator>::empty());
        assert(paths.deep_view() =~= resolved_paths(fields.take(0), reg));
    }
    while i < collection.fields.len()
        invariant
            i <= fields.len(),
            fields == collection.fields@,
            reg == keys@,
            forall|j: int| 0 <= j < i ==> locator_resolvable(#[trigger] fields[j], reg),
            paths.deep_view() == resolved_paths(fields.take(i as int), reg),
        decreases fields.len() - i,
    {
        let ghost prefix = paths.deep_view();
        match &collection.fields[i] {
            AssetLocator::Path(p) => {
                paths.push(p.as_str().to_owned());
            },
            AssetLocator::Key { key, optional } => {
                match keys.get(key.as_str()) {
                    Some(v) => {
                        paths.push(v.as_str().to_owned());
                    },
                    None => {
                        if !*optional {
                            proof {
                                lemma_first_missing_at(fields, reg, i as int);
                            }
                            return Err(MissingKey { key: key.as_str().to_owned() });
                        }
                    },
                }
            },
        }
        proof {
            assert(fields.take(i + 1).drop_last() =~= fields.take(i as int));
            assert(fields.take(i + 1).last() == fields[i as int]);
            assert(paths.deep_view() =~= prefix + locator_paths(fields[i as int], reg));
        }
        i = i + 1;
    }
    proof {
        assert(fields.take(fields.len() as int) =~= fields);
    }
    Ok(paths)
}

} // verus!
