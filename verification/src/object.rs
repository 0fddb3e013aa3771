//! Objects of the heap: one layer of instance fields for the class of the object and
//! one for each of its super classes.
use crate::bytes::{bytes_eq, copy_range, push_all};
use crate::methodarea::{
    field_defaults, spec_field_defaults, spec_find_class, AreaView, LoadedClassView, MethodArea,
};
use crate::text::{string_bytes, string_from_utf8};
use crate::typevalues::{find_named, named_position, JvmValue, NamedValue, NamedValueView};
pub use crate::heap::create_static_string_object;
use vstd::prelude::*;
use vstd::utf8::{encode_utf8, valid_utf8};

verus! {

/// The part of an object that belongs to one class: the name of the class and the
/// instance fields that the class declares.
#[derive(Debug)]
pub struct ObjectLayer {
    pub class_name: Vec<u8>,
    pub fields: Vec<NamedValue>,
}

/// The mathematical value of an `ObjectLayer`.
pub struct LayerView {
    pub class_name: Seq<u8>,
    pub fields: Seq<NamedValueView>,
}

impl View for ObjectLayer {
    type V = LayerView;

    open spec fn view(&self) -> LayerView {
        LayerView {
            class_name: self.class_name@,
            fields: self.fields@.map_values(|v: NamedValue| v@),
        }
    }
}

/// An object: its layers, that of its own class first, then that of the super class,
/// and so on up to the root of the hierarchy.
#[derive(Debug)]
pub struct JvmObject {
    pub layers: Vec<ObjectLayer>,
}

impl View for JvmObject {
    type V = Seq<LayerView>;

    open spec fn view(&self) -> Seq<LayerView> {
        self.layers@.map_values(|l: ObjectLayer| l@)
    }
}

/// The first layer from `from` on that has a field `name`, and the position of the
/// field in it.
pub open spec fn field_place(layers: Seq<LayerView>, name: Seq<u8>, from: int) -> Option<(int, int)>
    decreases layers.len() - from,
{
    if from < 0 || from >= layers.len() {
        None
    } else {
        match named_position(layers[from].fields, name, 0) {
            Some(j) => Some((from, j)),
            None => field_place(layers, name, from + 1),
        }
    }
}

/// The value of the field `name`: that of the first layer that has such a field.
pub open spec fn spec_get_field(layers: Seq<LayerView>, name: Seq<u8>) -> Option<JvmValue> {
    match field_place(layers, name, 0) {
        Some((l, j)) => Some(layers[l].fields[j].value),
        None => None,
    }
}

/// The layer with other fields.
pub open spec fn with_fields(layer: LayerView, fields: Seq<NamedValueView>) -> LayerView {
    LayerView { class_name: layer.class_name, fields }
}

/// The object after the field `name` got the value `value`: the first layer that has
/// such a field holds the value; where no layer has one, the field is added to the layer
/// of the object's own class.
pub open spec fn spec_set_field(layers: Seq<LayerView>, name: Seq<u8>, value: JvmValue) -> Seq<
    LayerView,
> {
    match field_place(layers, name, 0) {
        Some((l, j)) => layers.update(
            l,
            with_fields(layers[l], layers[l].fields.update(j, NamedValueView { name, value })),
        ),
        None => if layers.len() == 0 {
            layers
        } else {
            layers.update(
                0,
                with_fields(layers[0], layers[0].fields.push(NamedValueView { name, value })),
            )
        },
    }
}

/// Whether one of the layers belongs to the class named `name`.
pub open spec fn spec_is_type_of(layers: Seq<LayerView>, name: Seq<u8>) -> bool {
    exists|l: int| 0 <= l < layers.len() && (#[trigger] layers[l]).class_name == name
}

/// The bytes `, `.
pub open spec fn separator() -> Seq<u8> {
    seq![44u8, 32u8]
}

/// The class names of the layers, from the object's own class upwards, with `, `
/// between them.
pub open spec fn spec_hierarchy(layers: Seq<LayerView>) -> Seq<u8>
    decreases layers.len(),
{
    if layers.len() == 0 {
        Seq::empty()
    } else if layers.len() == 1 {
        layers[0].class_name
    } else {
        spec_hierarchy(layers.drop_last()) + separator() + layers.last().class_name
    }
}

/// The layers of an object of class `cid`, behind those of `acc`: one for the class and
/// one for each super class, each with the instance fields of its class at their
/// default values. `None` where a field has a descriptor that names no type.
pub open spec fn spec_layers(classes: Seq<LoadedClassView>, cid: int, acc: Seq<LayerView>) -> Option<
    Seq<LayerView>,
>
    decreases cid,
{
    if cid < 0 || cid >= classes.len() {
        Some(acc)
    } else {
        match spec_field_defaults(classes[cid].class, false, 0, Seq::empty()) {
            Err(_) => None,
            Ok(fields) => match classes[cid].super_id {
                Some(s) => if s < cid {
                    spec_layers(
                        classes,
                        s as int,
                        acc.push(LayerView { class_name: classes[cid].name, fields }),
                    )
                } else {
                    Some(acc.push(LayerView { class_name: classes[cid].name, fields }))
                },
                None => Some(acc.push(LayerView { class_name: classes[cid].name, fields })),
            },
        }
    }
}

/// The layers of a new object of the loaded class named `name`; `None` where the class
/// is not loaded or one of its fields has a descriptor that names no type.
pub open spec fn spec_instantiate(area: AreaView, name: Seq<u8>) -> Option<Seq<LayerView>> {
    match spec_find_class(area.classes, name, 0) {
        None => None,
        Some(cid) => spec_layers(area.classes, cid, Seq::empty()),
    }
}

impl JvmObject {
    /// An object has at least the layer of its own class.
    pub open spec fn well_formed(&self) -> bool {
        self@.len() >= 1
    }

    /// An object of the class named `class_name`, without fields and without the layers
    /// of super classes; `instantiate` adds both.
    pub fn new(class_name: &[u8]) -> (r: JvmObject)
        ensures
            r.well_formed(),
            r@ == seq![LayerView { class_name: class_name@, fields: Seq::empty() }],
    {
        let owned: Vec<u8> = copy_range(class_name, 0, class_name.len());
        assert(owned@ =~= class_name@);
        let mut layers: Vec<ObjectLayer> = Vec::new();
        let layer = ObjectLayer { class_name: owned, fields: Vec::new() };
        assert(layer@.fields =~= Seq::<NamedValueView>::empty());
        layers.push(layer);
        let r = JvmObject { layers };
        assert(r@ =~= seq![LayerView { class_name: class_name@, fields: Seq::empty() }]);
        r
    }

    /// The name of the class of the object.
    pub fn get_class(&self) -> (r: &Vec<u8>)
        requires
            self.well_formed(),
        ensures
            r@ == self@[0].class_name,
    {
        &self.layers[0].class_name
    }

    /// The first layer that has a field `name`, and the position of the field in it.
    pub fn find_field(&self, name: &[u8]) -> (r: Option<(usize, usize)>)
        ensures
            match r {
                Some((l, j)) => field_place(self@, name@, 0) == Some((l as int, j as int)) && l
                    < self.layers@.len() && j < self.layers@[l as int].fields@.len()
                    && self.layers@[l as int].fields@[j as int].name@ == name@,
                None => field_place(self@, name@, 0) is None,
            },
    {
        let mut l: usize = 0;
        while l < self.layers.len()
            invariant
                l <= self.layers@.len(),
                field_place(self@, name@, 0) == field_place(self@, name@, l as int),
            decreases self.layers@.len() - l,
        {
            assert(self@[l as int] == self.layers@[l as int]@);
            match find_named(&self.layers[l].fields, name) {
                Some(j) => {
                    return Some((l, j));
                },
                None => {},
            }
            l = l + 1;
        }
        None
    }

    /// The value of the field with the bytes `name` as its name.
    pub fn field(&self, name: &[u8]) -> (r: Option<JvmValue>)
        ensures
            r == spec_get_field(self@, name@),
    {
        match self.find_field(name) {
            Some((l, j)) => {
                assert(self@[l as int] == self.layers@[l as int]@);
                Some(self.layers[l].fields[j].value)
            },
            None => None,
        }
    }

    /// Gives the field with the bytes `name` as its name the value `value`.
    pub fn put_field(&mut self, name: &[u8], value: JvmValue)
        requires
            old(self).well_formed(),
        ensures
            final(self)@ == spec_set_field(old(self)@, name@, value),
            final(self).well_formed(),
    {
        match self.find_field(name) {
            Some((l, j)) => {
                assert(self@[l as int] == self.layers@[l as int]@);
                self.layers[l].fields[j].value = value;
                assert(self@[l as int].fields =~= old(self)@[l as int].fields.update(
                    j as int,
                    NamedValueView { name: name@, value },
                ));
                assert(self@ =~= spec_set_field(old(self)@, name@, value));
            },
            None => {
                assert(self@[0] == self.layers@[0]@);
                let owned: Vec<u8> = copy_range(name, 0, name.len());
                assert(owned@ =~= name@);
                self.layers[0].fields.push(NamedValue { name: owned, value });
                assert(self@[0].fields =~= old(self)@[0].fields.push(
                    NamedValueView { name: name@, value },
                ));
                assert(self@ =~= spec_set_field(old(self)@, name@, value));
            },
        }
    }

    /// Gives the field `field_name` the value `value`; the name is compared by its UTF-8
    /// bytes.
    pub fn set_field(&mut self, field_name: &String, value: JvmValue)
        requires
            old(self).well_formed(),
        ensures
            final(self)@ == spec_set_field(old(self)@, encode_utf8(field_name@), value),
            final(self).well_formed(),
    {
        self.put_field(string_bytes(field_name), value);
    }

    /// The value of the field `field_name`; `None` where no layer has such a field.
    pub fn get_field(&self, field_name: &String) -> (r: Option<JvmValue>)
        ensures
            r == spec_get_field(self@, encode_utf8(field_name@)),
    {
        self.field(string_bytes(field_name))
    }

    /// Whether the object's class or one of its super classes is named by the bytes
    /// `name`.
    pub fn is_instance_of(&self, name: &[u8]) -> (r: bool)
        ensures
            r == spec_is_type_of(self@, name@),
    {
        let mut l: usize = 0;
        while l < self.layers.len()
            invariant
                l <= self.layers@.len(),
                forall|k: int| 0 <= k < l ==> (#[trigger] self@[k]).class_name != name@,
            decreases self.layers@.len() - l,
        {
            assert(self@[l as int] == self.layers@[l as int]@);
            if bytes_eq(self.layers[l].class_name.as_slice(), name) {
                return true;
            }
            l = l + 1;
        }
        false
    }

    /// Whether the object's class or one of its super classes is named `class_name`.
    pub fn is_type_of(&self, class_name: &String) -> (r: bool)
        ensures
            r == spec_is_type_of(self@, encode_utf8(class_name@)),
    {
        self.is_instance_of(string_bytes(class_name))
    }

    /// The bytes of the class names of the layers, with `, ` between them.
    pub fn hierarchy_bytes(&self) -> (r: Vec<u8>)
        ensures
            r@ == spec_hierarchy(self@),
    {
        let mut out: Vec<u8> = Vec::new();
        let mut l: usize = 0;
        assert(self@.take(0) =~= Seq::<LayerView>::empty());
        while l < self.layers.len()
            invariant
                l <= self.layers@.len(),
                out@ == spec_hierarchy(self@.take(l as int)),
            decreases self.layers@.len() - l,
        {
            assert(self@[l as int] == self.layers@[l as int]@);
            assert(self@.take(l + 1).drop_last() =~= self@.take(l as int));
            assert(self@.take(l + 1).last() == self@[l as int]);
            if l > 0 {
                out.push(44u8);
                out.push(32u8);
                assert(out@ =~= spec_hierarchy(self@.take(l as int)) + separator());
            } else {
                assert(self@.take(1)[0] == self@[0]);
            }
            push_all(&mut out, self.layers[l].class_name.as_slice());
            l = l + 1;
        }
        assert(self@.take(l as int) =~= self@);
        out
    }

    /// The class names of the layers as one string, with `, ` between them; the empty
    /// string where the names are not well-formed UTF-8.
    pub fn hierarchy(&self) -> (r: String)
        ensures
            valid_utf8(spec_hierarchy(self@)) ==> encode_utf8(r@) == spec_hierarchy(self@),
            !valid_utf8(spec_hierarchy(self@)) ==> r@ == Seq::<char>::empty(),
    {
        match string_from_utf8(self.hierarchy_bytes()) {
            Some(s) => s,
            None => String::new(),
        }
    }

    /// Gives the object the layers of its class and of every super class, each with the
    /// instance fields of its class at their default values. Returns `false`, and leaves
    /// the object as it is, where the class is not loaded or a field has a descriptor
    /// that names no type.
    pub fn instantiate(&mut self, methodarea: &MethodArea) -> (r: bool)
        requires
            old(self).well_formed(),
        ensures
            final(self).well_formed(),
            match spec_instantiate(methodarea@, old(self)@[0].class_name) {
                Some(layers) => r && final(self)@ == layers,
                None => !r && final(self)@ == old(self)@,
            },
    {
        assert(self@[0] == self.layers@[0]@);
        let cid: usize = match methodarea.find_class(self.layers[0].class_name.as_slice()) {
            Some(cid) => cid,
            None => {
                return false;
            },
        };
        let mut out: Vec<ObjectLayer> = Vec::new();
        let mut cur: usize = cid;
        let ghost classes = methodarea@.classes;
        assert(out@.map_values(|l: ObjectLayer| l@) =~= Seq::<LayerView>::empty());
        loop
            invariant_except_break
                cur < classes.len(),
                spec_layers(classes, cid as int, Seq::empty()) == spec_layers(
                    classes,
                    cur as int,
                    out@.map_values(|l: ObjectLayer| l@),
                ),
            invariant
                classes == methodarea@.classes,
                self@ == old(self)@,
                old(self).well_formed(),
                spec_find_class(classes, old(self)@[0].class_name, 0) == Some(cid as int),
            ensures
                out@.len() >= 1,
                spec_layers(classes, cid as int, Seq::empty()) == Some(
                    out@.map_values(|l: ObjectLayer| l@),
                ),
            decreases cur,
        {
            assert(classes[cur as int] == methodarea.classes@[cur as int]@);
            let fields: Vec<NamedValue> = match field_defaults(
                &methodarea.classes[cur].class,
                false,
            ) {
                Ok(f) => f,
                Err(_) => {
                    return false;
                },
            };
            let name: &Vec<u8> = &methodarea.classes[cur].name;
            let owned: Vec<u8> = copy_range(name.as_slice(), 0, name.len());
            assert(owned@ =~= name@);
            let ghost before = out@.map_values(|l: ObjectLayer| l@);
            let layer = ObjectLayer { class_name: owned, fields };
            let ghost lv = layer@;
            out.push(layer);
            assert(out@.map_values(|l: ObjectLayer| l@) =~= before.push(lv));
            match methodarea.classes[cur].super_id {
                Some(s) => if s < cur {
                    cur = s;
                } else {
                    break ;
                },
                None => {
                    break ;
                },
            }
        }
        self.layers = out;
        true
    }
}

} // verus!
