//! Scene collections (layers of objects) and their visibility.
use vstd::prelude::*;

verus! {

/// A fresh random id: `uuid::Uuid::new_v4()` as its 128-bit value. Nothing
/// is stated of the value.
#[verifier::external_body]
fn new_uuid() -> (id: u128) {
    uuid::Uuid::new_v4().as_u128()
}

/// The colour a collection is drawn in (floating point); the collection
/// code only stores it.
pub trait CollectionColor: Sized {
    /// The colour of a new collection.
    fn default_color() -> Self;
}

/// A named collection of objects (by id), which can be hidden or locked.
pub struct Collection<C> {
    pub id: u128,
    pub name: String,
    pub visible: bool,
    pub locked: bool,
    pub objects: Vec<u128>,
    pub color: C,
    pub parent: Option<u128>,
    pub children: Vec<u128>,
}

impl<C: CollectionColor> Collection<C> {
    /// A visible, unlocked, empty collection named `name`, under a fresh
    /// random id.
    pub fn new(name: &str) -> (c: Self)
        ensures
            c.name@ == name@,
            c.visible,
            !c.locked,
            c.objects@.len() == 0,
            c.parent is None,
            c.children@.len() == 0,
    {
        broadcast use vstd::string::group_string_axioms;
        Collection {
            id: new_uuid(),
            name: name.to_string(),
            visible: true,
            locked: false,
            objects: Vec::new(),
            color: C::default_color(),
            parent: None,
            children: Vec::new(),
        }
    }
}

/// The collections of a scene; the first is the scene's root collection.
pub struct LayerState<C> {
    pub active_layer: usize,
    pub layers: Vec<Collection<C>>,
}

/// The index of the first collection with id `id`, or the number of collections.
pub open spec fn first_collection<C>(layers: Seq<Collection<C>>, id: u128) -> int
    decreases layers.len(),
{
    if layers.len() == 0 {
        0
    } else {
        let k = first_collection(layers.drop_last(), id);
        if k < layers.len() - 1 {
            k
        } else if layers.last().id == id {
            layers.len() - 1
        } else {
            layers.len() as int
        }
    }
}

proof fn lemma_first_collection<C>(layers: Seq<Collection<C>>, id: u128)
    ensures
        0 <= first_collection(layers, id) <= layers.len(),
        first_collection(layers, id) < layers.len() ==> layers[first_collection(layers, id)].id == id,
        forall|k: int| 0 <= k < first_collection(layers, id) ==> layers[k].id != id,
    decreases layers.len(),
{
    if layers.len() > 0 {
        lemma_first_collection(layers.drop_last(), id);
        assert forall|k: int| 0 <= k < first_collection(layers, id) implies layers[k].id != id by {
            if k < layers.len() - 1 {
                assert(layers.drop_last()[k] == layers[k]);
            }
        }
    }
}

/// Keeps the collections whose id is not `id`.
pub open spec fn collection_kept<C>(id: u128) -> spec_fn(Collection<C>) -> bool {
    |c: Collection<C>| c.id != id
}

/// Keeps the object ids other than `id`.
pub open spec fn object_kept(id: u128) -> spec_fn(u128) -> bool {
    |o: u128| o != id
}

impl<C: CollectionColor> Default for LayerState<C> {
    /// One visible root collection, "Scene Collection", which is active.
    fn default() -> (s: Self)
        ensures
            s.active_layer == 0,
            s.layers@.len() == 1,
            s.layers@[0].name@ == "Scene Collection"@,
            s.layers@[0].visible,
            s.layers@[0].objects@.len() == 0,
    {
        let root = Collection::new("Scene Collection");
        LayerState { active_layer: 0, layers: vec![root] }
    }
}

impl<C: CollectionColor> LayerState<C> {
    pub fn new() -> (s: Self)
        ensures
            s.active_layer == 0,
            s.layers@.len() == 1,
            s.layers@[0].name@ == "Scene Collection"@,
            s.layers@[0].visible,
            s.layers@[0].objects@.len() == 0,
    {
        Self::default()
    }

    /// Adds a new empty collection named `name`; returns its id.
    pub fn add_collection(&mut self, name: &str) -> (id: u128)
        ensures
            final(self).layers@.len() == old(self).layers@.len() + 1,
            final(self).layers@.drop_last() == old(self).layers@,
            final(self).layers@.last().id == id,
            final(self).layers@.last().name@ == name@,
            final(self).layers@.last().visible,
            final(self).layers@.last().objects@.len() == 0,
            final(self).active_layer == old(self).active_layer,
    {
        let col = Collection::new(name);
        let id = col.id;
        self.layers.push(col);
        proof {
            assert(self.layers@.drop_last() =~= old(self).layers@);
        }
        id
    }

    /// Removes every collection with id `id`.
    pub fn remove_collection(&mut self, id: u128)
        ensures
            final(self).layers@ == old(self).layers@.filter(collection_kept::<C>(id)),
            final(self).active_layer == old(self).active_layer,
    {
        let mut old_layers: Vec<Collection<C>> = Vec::new();
        std::mem::swap(&mut old_layers, &mut self.layers);
        let ghost ol = old_layers@;
        proof {
            reveal(Seq::filter);
            assert(ol.take(0).filter(collection_kept::<C>(id)) =~= self.layers@);
        }
        for c in it: old_layers
            invariant
                it.seq() == ol,
                self.layers@ == ol.take(it.index() as int).filter(collection_kept::<C>(id)),
                self.active_layer == old(self).active_layer,
        {
            proof {
                assert(ol.take(it.index() + 1).drop_last() =~= ol.take(it.index() as int));
                assert(ol.take(it.index() + 1).last() == c);
            }
            if c.id != id {
                self.layers.push(c);
            }
            proof {
                reveal(Seq::filter);
                let t1 = ol.take(it.index() + 1);
                assert(t1.filter(collection_kept::<C>(id)) == if collection_kept::<C>(id)(t1.last()) {
                    t1.drop_last().filter(collection_kept::<C>(id)).push(t1.last())
                } else {
                    t1.drop_last().filter(collection_kept::<C>(id))
                });
                assert(self.layers@ =~= t1.filter(collection_kept::<C>(id)));
            }
        }
        proof {
            assert(ol.take(ol.len() as int) =~= ol);
        }
    }

    fn find(&self, id: u128) -> (i: usize)
        ensures
            i == first_collection(self.layers@, id),
    {
        proof {
            lemma_first_collection(self.layers@, id);
        }
        let mut i: usize = 0;
        while i < self.layers.len()
            invariant
                i <= self.layers@.len(),
                forall|k: int| 0 <= k < i ==> self.layers@[k].id != id,
                0 <= first_collection(self.layers@, id) <= self.layers@.len(),
                first_collection(self.layers@, id) < self.layers@.len() ==> self.layers@[first_collection(
                    self.layers@,
                    id,
                )].id == id,
                forall|k: int| 0 <= k < first_collection(self.layers@, id) ==> self.layers@[k].id != id,
            decreases self.layers@.len() - i,
        {
            if self.layers[i].id == id {
                return i;
            }
            i = i + 1;
        }
        i
    }

    /// Adds object `obj_id` to the first collection with id `col_id`, if any.
    pub fn add_object_to_collection(&mut self, col_id: u128, obj_id: u128)
        ensures
            ({
                let k = first_collection(old(self).layers@, col_id);
                final(self).layers@ == if k < old(self).layers@.len() {
                    old(self).layers@.update(
                        k,
                        Collection { objects: final(self).layers@[k].objects, ..old(self).layers@[k] },
                    )
                } else {
                    old(self).layers@
                } && (k < old(self).layers@.len() ==> final(self).layers@[k].objects@
                    == old(self).layers@[k].objects@.push(obj_id))
            }),
            final(self).active_layer == old(self).active_layer,
    {
        let i = self.find(col_id);
        if i < self.layers.len() {
            let mut col = self.layers.remove(i);
            col.objects.push(obj_id);
            self.layers.insert(i, col);
            proof {
                assert(self.layers@ =~= old(self).layers@.update(
                    i as int,
                    Collection { objects: self.layers@[i as int].objects, ..old(self).layers@[i as int] },
                ));
            }
        }
    }

    /// Removes every occurrence of object `obj_id` from the first collection
    /// with id `col_id`, if any.
    pub fn remove_object_from_collection(&mut self, col_id: u128, obj_id: u128)
        ensures
            ({
                let k = first_collection(old(self).layers@, col_id);
                final(self).layers@ == if k < old(self).layers@.len() {
                    old(self).layers@.update(
                        k,
                        Collection { objects: final(self).layers@[k].objects, ..old(self).layers@[k] },
                    )
                } else {
                    old(self).layers@
                } && (k < old(self).layers@.len() ==> final(self).layers@[k].objects@
                    == old(self).layers@[k].objects@.filter(object_kept(obj_id)))
            }),
            final(self).active_layer == old(self).active_layer,
    {
        let i = self.find(col_id);
        if i < self.layers.len() {
            let mut col = self.layers.remove(i);
            let objs = &col.objects;
            let mut kept: Vec<u128> = Vec::new();
            let mut j: usize = 0;
            proof {
                reveal(Seq::filter);
                assert(objs@.take(0).filter(object_kept(obj_id)) =~= kept@);
            }
            while j < objs.len()
                invariant
                    j <= objs@.len(),
                    kept@ == objs@.take(j as int).filter(object_kept(obj_id)),
                decreases objs@.len() - j,
            {
                let o = objs[j];
                if o != obj_id {
                    kept.push(o);
                }
                proof {
                    reveal(Seq::filter);
                    let t1 = objs@.take(j + 1);
                    assert(t1.drop_last() =~= objs@.take(j as int));
                    assert(t1.last() == o);
                    assert(kept@ =~= t1.filter(object_kept(obj_id)));
                }
                j = j + 1;
            }
            proof {
                assert(objs@.take(j as int) =~= objs@);
            }
            col.objects = kept;
            self.layers.insert(i, col);
            proof {
                assert(self.layers@ =~= old(self).layers@.update(
                    i as int,
                    Collection { objects: self.layers@[i as int].objects, ..old(self).layers@[i as int] },
                ));
            }
        }
    }

    /// Shows the first collection with id `id` if it is hidden, hides it if
    /// it is shown.
    pub fn toggle_visibility(&mut self, id: u128)
        ensures
            ({
                let k = first_collection(old(self).layers@, id);
                final(self).layers@ == if k < old(self).layers@.len() {
                    old(self).layers@.update(k, Collection { visible: !old(self).layers@[k].visible, ..old(self).layers@[k] })
                } else {
                    old(self).layers@
                }
            }),
            final(self).active_layer == old(self).active_layer,
    {
        let i = self.find(id);
        if i < self.layers.len() {
            let mut col = self.layers.remove(i);
            col.visible = !col.visible;
            self.layers.insert(i, col);
            proof {
                assert(self.layers@ =~= old(self).layers@.update(
                    i as int,
                    Collection { visible: !old(self).layers@[i as int].visible, ..old(self).layers@[i as int] },
                ));
            }
        }
    }

    /// Whether the first collection with id `id` is shown; `false` when
    /// there is none.
    pub fn is_visible(&self, id: u128) -> (b: bool)
        ensures
            b == (first_collection(self.layers@, id) < self.layers@.len() && self.layers@[first_collection(
                self.layers@,
                id,
            )].visible),
    {
        let i = self.find(id);
        if i < self.layers.len() {
            self.layers[i].visible
        } else {
            false
        }
    }
}

/// Toggling a collection's visibility twice restores it; toggling changes
/// what `is_visible` answers for it.
pub proof fn law_toggle_twice<C>(layers: Seq<Collection<C>>, k: int)
    requires
        0 <= k < layers.len(),
    ensures
        ({
            let once = layers.update(k, Collection { visible: !layers[k].visible, ..layers[k] });
            let twice = once.update(k, Collection { visible: !once[k].visible, ..once[k] });
            &&& once[k].visible != layers[k].visible
            &&& twice == layers
        }),
{
    let once = layers.update(k, Collection { visible: !layers[k].visible, ..layers[k] });
    let twice = once.update(k, Collection { visible: !once[k].visible, ..once[k] });
    assert(twice =~= layers);
}

} // verus!
