//! The resolved model of a loaded class: its name, the name of its
//! superclass, its methods with their names and descriptors as text, and its
//! constant pool.

use vstd::prelude::*;

use crate::attr::{attrs_view, AttributeInfo, AttributeView};
use crate::class::{ClassFile, ClassFileView};
use crate::constant_pool::{
    pool_view, resolve_class_name, resolve_utf8, spec_resolve_class_name, spec_resolve_utf8,
    ConstantPoolInfo, ConstantView,
};
use crate::error::ClassFormatError;
use crate::field::MemberView;
use crate::method::{methods_view, MethodInfo};

verus! {

/// A loaded class, as the virtual machine runs it.
#[derive(Debug)]
pub struct Class {
    /// The binary name of the class.
    pub name: String,
    /// The binary name of its superclass; only a root class has none.
    pub super_class_name: Option<String>,
    /// The methods, in the order of the class file.
    pub methods: Vec<Method>,
    /// The constant pool of the class file, which the code refers to.
    pub constant_pool: Vec<ConstantPoolInfo>,
}

/// A method of a loaded class.
#[derive(Debug)]
pub struct Method {
    /// The name of the method, as it appears in source code.
    pub name: String,
    /// The descriptor of the method: `(IDLjava/lang/Thread;)Ljava/lang/Object;`
    /// is that of `Object m(int i, double d, Thread t)`.
    pub descriptor: String,
    /// The binary name of the class that the method belongs to.
    pub class_name: String,
    /// The attributes of the method. The first `Code` attribute among them
    /// is what runs; an abstract or native method has none.
    pub attributes: Vec<AttributeInfo>,
}

/// An object: the name of its class, and its fields. No instruction of the
/// table makes one.
#[derive(Debug)]
pub struct Object {
    /// The binary name of the object's class.
    pub class_name: String,
    pub fields: Vec<Field>,
}

/// A field of an object.
#[derive(Debug)]
pub struct Field {
    pub name: String,
    pub flags: u16,
    pub value: FieldValue,
}

/// What a field holds.
#[allow(inconsistent_fields)]
#[derive(Debug)]
pub enum FieldValue {
    Integer { value: u16 },
    String { value: String },
}

/// What a [`Method`] stands for.
pub struct MethodView {
    pub name: Seq<char>,
    pub descriptor: Seq<char>,
    pub class_name: Seq<char>,
    pub attributes: Seq<AttributeView>,
}

/// What a [`Class`] stands for.
pub struct ClassView {
    pub name: Seq<char>,
    pub super_class_name: Option<Seq<char>>,
    pub methods: Seq<MethodView>,
    pub constant_pool: Seq<ConstantView>,
}

impl View for Method {
    type V = MethodView;

    open spec fn view(&self) -> MethodView {
        MethodView {
            name: self.name@,
            descriptor: self.descriptor@,
            class_name: self.class_name@,
            attributes: attrs_view(self.attributes@),
        }
    }
}

/// The views of a list of methods, one by one.
pub open spec fn method_views(methods: Seq<Method>) -> Seq<MethodView> {
    Seq::new(methods.len(), |i: int| methods[i]@)
}

/// The view of a text that may be missing.
pub open spec fn optional_text(text: Option<String>) -> Option<Seq<char>> {
    match text {
        Some(s) => Some(s@),
        None => None,
    }
}

impl View for Class {
    type V = ClassView;

    open spec fn view(&self) -> ClassView {
        ClassView {
            name: self.name@,
            super_class_name: optional_text(self.super_class_name),
            methods: method_views(self.methods@),
            constant_pool: pool_view(self.constant_pool@),
        }
    }
}

/// The views of a list of classes, one by one.
pub open spec fn class_views(classes: Seq<Class>) -> Seq<ClassView> {
    Seq::new(classes.len(), |i: int| classes[i]@)
}

/// The method that `member` declares in the class `class_name`: its name and
/// its descriptor are resolved in the pool, the name first.
pub open spec fn spec_method(
    pool: Seq<ConstantView>,
    class_name: Seq<char>,
    member: MemberView,
) -> Result<MethodView, ClassFormatError> {
    match spec_resolve_utf8(pool, member.name_index) {
        Err(e) => Err(e),
        Ok(name) => match spec_resolve_utf8(pool, member.descriptor_index) {
            Err(e) => Err(e),
            Ok(descriptor) => Ok(
                MethodView { name, descriptor, class_name, attributes: member.attributes },
            ),
        },
    }
}

/// The methods that `members` declare, in their order, or the error of the
/// first of them that does not resolve.
pub open spec fn spec_methods(
    pool: Seq<ConstantView>,
    class_name: Seq<char>,
    members: Seq<MemberView>,
) -> Result<Seq<MethodView>, ClassFormatError>
    decreases members.len(),
{
    if members.len() == 0 {
        Ok(Seq::empty())
    } else {
        match spec_methods(pool, class_name, members.drop_last()) {
            Err(e) => Err(e),
            Ok(methods) => match spec_method(pool, class_name, members.last()) {
                Err(e) => Err(e),
                Ok(method) => Ok(methods.push(method)),
            },
        }
    }
}

/// The name of the superclass: none where `super_class` is 0.
pub open spec fn spec_super_class_name(class: ClassFileView) -> Result<
    Option<Seq<char>>,
    ClassFormatError,
> {
    if class.super_class == 0 {
        Ok(None)
    } else {
        match spec_resolve_class_name(class.constant_pool, class.super_class) {
            Err(e) => Err(e),
            Ok(name) => Ok(Some(name)),
        }
    }
}

/// The model of the class that a class file holds: the name of the class, the
/// name of its superclass and its methods, resolved in this order, and the
/// pool of the class file. The first resolution that fails gives the error.
pub open spec fn spec_class(class: ClassFileView) -> Result<ClassView, ClassFormatError> {
    match spec_resolve_class_name(class.constant_pool, class.this_class) {
        Err(e) => Err(e),
        Ok(name) => match spec_super_class_name(class) {
            Err(e) => Err(e),
            Ok(super_class_name) => match spec_methods(class.constant_pool, name, class.methods) {
                Err(e) => Err(e),
                Ok(methods) => Ok(
                    ClassView {
                        name,
                        super_class_name,
                        methods,
                        constant_pool: class.constant_pool,
                    },
                ),
            },
        },
    }
}

/// Once the first `k` members give an error, all of them give that error.
proof fn lemma_methods_error(
    pool: Seq<ConstantView>,
    class_name: Seq<char>,
    members: Seq<MemberView>,
    k: int,
)
    requires
        0 <= k <= members.len(),
        spec_methods(pool, class_name, members.take(k)) is Err,
    ensures
        spec_methods(pool, class_name, members) == spec_methods(pool, class_name, members.take(k)),
    decreases members.len() - k,
{
    if k == members.len() {
        assert(members.take(k) =~= members);
    } else {
        assert(members.take(k + 1).drop_last() =~= members.take(k));
        lemma_methods_error(pool, class_name, members, k + 1);
    }
}

impl Class {
    /// Builds the model of the class that `class_file` holds. On a class file
    /// whose name indices are those of `Utf8` entries this does not fail.
    pub fn from_class_file(class_file: ClassFile) -> (r: Result<Class, ClassFormatError>)
        ensures
            match r {
                Ok(class) => spec_class(class_file@) == Ok::<ClassView, ClassFormatError>(class@),
                Err(e) => spec_class(class_file@) == Err::<ClassView, ClassFormatError>(e),
            },
    {
        let ghost file = class_file@;
        let ClassFile { constant_pool, this_class, super_class, methods, .. } = class_file;
        let name: String = resolve_class_name(&constant_pool, this_class)?.to_owned();
        let super_class_name: Option<String> = if super_class == 0 {
            None
        } else {
            Some(resolve_class_name(&constant_pool, super_class)?.to_owned())
        };
        let methods = Self::build_methods(&constant_pool, &name, methods)?;
        Ok(Class { name, super_class_name, methods, constant_pool })
    }

    /// Builds the methods of the class `class_name` from those of its class
    /// file, in their order.
    #[verifier::loop_isolation(false)]
    fn build_methods(
        pool: &Vec<ConstantPoolInfo>,
        class_name: &String,
        infos: Vec<MethodInfo>,
    ) -> (r: Result<Vec<Method>, ClassFormatError>)
        ensures
            match r {
                Ok(methods) => spec_methods(pool_view(pool@), class_name@, methods_view(infos@))
                    == Ok::<Seq<MethodView>, ClassFormatError>(method_views(methods@)),
                Err(e) => spec_methods(pool_view(pool@), class_name@, methods_view(infos@)) == Err::<
                    Seq<MethodView>,
                    ClassFormatError,
                >(e),
            },
    {
        let ghost all = infos@;
        let ghost members = methods_view(all);
        let ghost constants = pool_view(pool@);
        let n = infos.len();
        // The methods are taken out from the back: turn the list over first,
        // so that they then come out in their order.
        let mut infos = infos;
        let mut pending: Vec<MethodInfo> = Vec::new();
        while infos.len() > 0
            invariant
                pending@.len() + infos@.len() == n,
                infos@ =~= all.take(infos@.len() as int),
                forall|k: int| 0 <= k < pending@.len() ==> pending@[k] == all[n - 1 - k],
            decreases infos.len(),
        {
            let info = infos.pop().unwrap();
            pending.push(info);
        }
        let mut methods: Vec<Method> = Vec::new();
        assert(members.take(0) =~= Seq::<MemberView>::empty());
        assert(method_views(methods@) =~= Seq::<MethodView>::empty());
        while pending.len() > 0
            invariant
                pending@.len() + methods@.len() == n,
                forall|k: int| 0 <= k < pending@.len() ==> pending@[k] == all[n - 1 - k],
                spec_methods(constants, class_name@, members.take(methods@.len() as int)) == Ok::<
                    Seq<MethodView>,
                    ClassFormatError,
                >(method_views(methods@)),
            decreases pending.len(),
        {
            let ghost i = methods@.len() as int;
            let ghost before = method_views(methods@);
            let info = pending.pop().unwrap();
            assert(info@ == members[i]);
            assert(members.take(i + 1).drop_last() =~= members.take(i));
            let name = match resolve_utf8(pool, info.name_index) {
                Ok(name) => name.to_owned(),
                Err(e) => {
                    proof {
                        lemma_methods_error(constants, class_name@, members, i + 1);
                    }
                    return Err(e);
                },
            };
            let descriptor = match resolve_utf8(pool, info.descriptor_index) {
                Ok(descriptor) => descriptor.to_owned(),
                Err(e) => {
                    proof {
                        lemma_methods_error(constants, class_name@, members, i + 1);
                    }
                    return Err(e);
                },
            };
            let method = Method {
                name,
                descriptor,
                class_name: class_name.clone(),
                attributes: info.attributes,
            };
            let ghost view = method@;
            methods.push(method);
            assert(method_views(methods@) =~= before.push(view));
        }
        assert(members.take(n as int) =~= members);
        Ok(methods)
    }
}

} // verus!
