use rust_engine_frame::base_lib::cores::design_patterns::{Union, WithInto};
use rust_engine_frame::base_lib::cores::tiny_tags::{PureTagContainer, TinyTag};
use rust_engine_frame::base_lib::cores::unify_types::FixedName;
use rust_engine_frame::base_lib::eff_attr::effects::EffectMean;

/// Any trait, read-only.
trait AnyTrait {
    fn do_something(&self);
}

/// Any trait, mutating.
trait AnyTraitMut {
    fn do_something_mut(&mut self);
}

impl<T: AnyTrait> AnyTrait for Union<&T, ()> {
    fn do_something(&self) {
        self.0.do_something();
    }
}

impl<T: AnyTraitMut> AnyTraitMut for Union<&mut T, ()> {
    fn do_something_mut(&mut self) {
        self.0.do_something_mut();
    }
}

/// Owning an inner value, by composition.
trait HasInner {
    type Inner;

    fn get_inner(&self) -> &Self::Inner;

    fn get_inner_mut(&mut self) -> &mut Self::Inner;
}

fn auto_do_something<E, With>(anything: &E, with: With)
where
    With: Copy,
    E: HasInner,
    for<'a> &'a <E as HasInner>::Inner: WithInto<With>,
    for<'a> <&'a <E as HasInner>::Inner as WithInto<With>>::Target: AnyTrait,
{
    anything.get_inner().with_into(with).do_something();
}

fn auto_do_something_mut<E, With>(anything: &mut E, with: With)
where
    With: Copy,
    E: HasInner,
    for<'a> &'a mut <E as HasInner>::Inner: WithInto<With>,
    for<'a> <&'a mut <E as HasInner>::Inner as WithInto<With>>::Target: AnyTraitMut,
{
    anything.get_inner_mut().with_into(with).do_something_mut();
}

/// A type that needs a context to implement the traits.
struct Foo;

#[derive(Debug, Clone, Copy)]
struct FooWith;

impl AnyTrait for Union<&Foo, &FooWith> {
    fn do_something(&self) {}
}

impl AnyTraitMut for Union<&mut Foo, &FooWith> {
    fn do_something_mut(&mut self) {}
}

impl<'a, 'b> WithInto<&'b FooWith> for &'a Foo {
    type Target = Union<&'a Foo, &'b FooWith>;

    fn with_into(self, w: &'b FooWith) -> Union<&'a Foo, &'b FooWith> {
        Union(self, w)
    }
}

impl<'a, 'b> WithInto<&'b FooWith> for &'a mut Foo {
    type Target = Union<&'a mut Foo, &'b FooWith>;

    fn with_into(self, w: &'b FooWith) -> Union<&'a mut Foo, &'b FooWith> {
        Union(self, w)
    }
}

struct HasFoo(Foo);

impl HasInner for HasFoo {
    type Inner = Foo;

    fn get_inner(&self) -> &Self::Inner {
        &self.0
    }

    fn get_inner_mut(&mut self) -> &mut Self::Inner {
        &mut self.0
    }
}

#[test]
fn test_foo() {
    auto_do_something::<_, &FooWith>(&HasFoo(Foo), &FooWith);
    auto_do_something_mut::<_, &FooWith>(&mut HasFoo(Foo), &FooWith);
}

/// A type that implements the traits by itself, with no context.
struct Bar;

impl AnyTrait for Bar {
    fn do_something(&self) {}
}

impl AnyTraitMut for Bar {
    fn do_something_mut(&mut self) {}
}

impl<'a> WithInto<()> for &'a Bar {
    type Target = Union<&'a Bar, ()>;

    fn with_into(self, w: ()) -> Union<&'a Bar, ()> {
        Union(self, w)
    }
}

impl<'a> WithInto<()> for &'a mut Bar {
    type Target = Union<&'a mut Bar, ()>;

    fn with_into(self, w: ()) -> Union<&'a mut Bar, ()> {
        Union(self, w)
    }
}

struct HasBar(Bar);

impl HasInner for HasBar {
    type Inner = Bar;

    fn get_inner(&self) -> &Self::Inner {
        &self.0
    }

    fn get_inner_mut(&mut self) -> &mut Self::Inner {
        &mut self.0
    }
}

#[test]
fn test_bar() {
    auto_do_something::<HasBar, ()>(&HasBar(Bar), ());
    auto_do_something_mut::<HasBar, ()>(&mut HasBar(Bar), ());
}

#[test]
fn union_new_pairs_its_parts() {
    let u = Union::new(1u8, "two");
    assert_eq!(u.0, 1);
    assert_eq!(u.1, "two");
}

/// Somewhere in a project, a name type used as a generic.
struct WhereverUsed<S: FixedName> {
    the_name: S,
}

impl<S: FixedName> WhereverUsed<S> {
    fn new<T: Into<S>>(name: T) -> Self {
        Self { the_name: name.into() }
    }
}

/// A type of another crate, to be adapted.
type AnyType = i8;

fn get_value_for_type() -> AnyType {
    100
}

/// A wrapper around `AnyType`, to get past the orphan rule.
#[derive(PartialEq, Eq, Hash, Clone, Debug)]
struct FixedNameWrapper(AnyType);

impl FixedName for FixedNameWrapper {
    fn same_name(&self, other: &Self) -> bool {
        self == other
    }

    fn is_same_name(&self, other: &Self) -> bool {
        self == other
    }
}

impl From<AnyType> for FixedNameWrapper {
    fn from(value: AnyType) -> Self {
        FixedNameWrapper(value)
    }
}

impl From<FixedNameWrapper> for AnyType {
    fn from(value: FixedNameWrapper) -> Self {
        value.0
    }
}

#[test]
fn unify_types_test_func() {
    let used: WhereverUsed<FixedNameWrapper> = WhereverUsed::new(get_value_for_type());
    let name: FixedNameWrapper = used.the_name;
    let name: AnyType = name.into();
    assert_eq!(name, get_value_for_type());
}

#[test]
fn names_compare_by_characters() {
    assert!(String::from("hp").is_same_name(&"hp".to_string()));
    assert!(!String::from("hp").is_same_name(&String::from("mp")));
    assert!("hp".is_same_name(&"hp"));
    assert!(!"hp".is_same_name(&"h"));
    assert!(3i64.is_same_name(&3));
    assert!(!3usize.is_same_name(&4));
    assert!(FixedNameWrapper(1).is_same_name(&FixedNameWrapper(1)));
}

/// Tags held in a vector.
struct PureTagVec(Vec<i64>);

impl PureTagContainer for PureTagVec {
    type PureTag = i64;

    fn holds(&self, pure_tag: i64) -> bool {
        self.0.contains(&pure_tag)
    }

    fn check_condition(&self, pure_tag: &Self::PureTag) -> bool {
        self.0.contains(pure_tag)
    }
}

#[test]
fn tiny_tags_test_func() {
    let ll = PureTagVec(vec![1, 2, 3]);

    assert!(TinyTag::Always.check_condition(&ll));
    assert!(!TinyTag::Never.check_condition(&ll));
    assert!(TinyTag::Has(1).check_condition(&ll));
    assert!(TinyTag::Not(9).check_condition(&ll));
    assert!(TinyTag::Or(2, 9).check_condition(&ll));
    assert!(TinyTag::And(1, 3).check_condition(&ll));
    assert!(TinyTag::And3(2, 3, 1).check_condition(&ll));
}

#[test]
fn tiny_tags_false_cases() {
    let ll = PureTagVec(vec![1, 2, 3]);

    assert!(!TinyTag::Has(9).check_condition(&ll));
    assert!(!TinyTag::Not(1).check_condition(&ll));
    assert!(!TinyTag::Or(8, 9).check_condition(&ll));
    assert!(!TinyTag::And(1, 9).check_condition(&ll));
    assert!(!TinyTag::And3(1, 2, 9).check_condition(&ll));
}

#[test]
fn effect_mean_which_nature_by_baseline() {
    assert!(EffectMean::which_nature(5.0, 0.0).is_good());
    assert!(EffectMean::which_nature(-5.0, 0.0).is_bad());
    assert!(EffectMean::which_nature(0.0, 0.0).is_neutral());

    assert!(EffectMean::which_nature(1.5, 1.0).is_good());
    assert!(EffectMean::which_nature(0.5, 1.0).is_bad());
    assert!(EffectMean::which_nature(1.0, 1.0).is_neutral());
}

#[test]
fn effect_mean_not_comparable_is_neutral() {
    assert!(EffectMean::which_nature(f64::NAN, 0.0).is_neutral());
    assert!(EffectMean::which_nature(3, 2).is_good());
    assert!(!EffectMean::which_nature(3, 2).is_bad());
}
