//! The value model of the interpreter: `Item` (the tagged runtime value),
//! `Cons` (the flattened list representation), the runtime-value union
//! `EnvItem` exchanged through registers and bindings, and the lexically
//! scoped `Environment`.

use vstd::prelude::*;

verus! {

/// The numeric type of the language.
pub type Number = i64;

/// A runtime value: a tagged union over numbers, strings, booleans,
/// symbol names, cons lists and the empty value.
#[derive(Debug, PartialEq, Eq)]
pub enum Item {
    Number(Number),
    String(String),
    Boolean(bool),
    Name(String),
    Cons(Cons),
    Nil,
}

pub type ConsElement = Item;

/// A list value: a flat ordered sequence of items plus a flag that records
/// whether the list is proper (nil-terminated). A well-formed `Cons` always
/// holds at least one element.
#[derive(Debug, PartialEq, Eq)]
pub struct Cons {
    pub(crate) data: Vec<Item>,
    pub(crate) is_null_terminated: bool,
}

/// Ghost mirror of `Item`: the mathematical value that the contracts of
/// this crate speak of.
pub enum ItemModel {
    Number(int),
    String(Seq<char>),
    Boolean(bool),
    Name(Seq<char>),
    Cons(ConsModel),
    Nil,
}

/// Ghost mirror of `Cons`.
#[verifier::ext_equal]
pub struct ConsModel {
    pub data: Seq<ItemModel>,
    pub proper: bool,
}

impl View for Item {
    type V = ItemModel;

    open(crate) spec fn view(&self) -> ItemModel
        decreases self,
    {
        match self {
            Item::Number(n) => ItemModel::Number(*n as int),
            Item::String(s) => ItemModel::String(s@),
            Item::Boolean(b) => ItemModel::Boolean(*b),
            Item::Name(n) => ItemModel::Name(n@),
            Item::Cons(c) => ItemModel::Cons(
                ConsModel { data: items_view(c.data@), proper: c.is_null_terminated },
            ),
            Item::Nil => ItemModel::Nil,
        }
    }
}

impl View for Cons {
    type V = ConsModel;

    open(crate) spec fn view(&self) -> ConsModel {
        ConsModel { data: items_view(self.data@), proper: self.is_null_terminated }
    }
}

/// The sequence of models of a sequence of items.
pub open spec fn items_view(s: Seq<Item>) -> Seq<ItemModel>
    decreases s,
{
    if s.len() == 0 {
        Seq::empty()
    } else {
        items_view(s.drop_last()).push(s.last()@)
    }
}

/// Every list reachable inside the value holds at least one element.
pub open spec fn item_model_wf(m: ItemModel) -> bool
    decreases m,
{
    match m {
        ItemModel::Cons(c) => c.data.len() >= 1 && (forall|i: int|
            0 <= i < c.data.len() ==> item_model_wf(#[trigger] c.data[i])),
        _ => true,
    }
}

pub open spec fn cons_model_wf(c: ConsModel) -> bool {
    item_model_wf(ItemModel::Cons(c))
}

impl Item {
    pub open spec fn wf(&self) -> bool {
        item_model_wf(self@)
    }

    /// The boolean coercion used by `if`: `0`, the empty string, the empty
    /// list and the empty value are false, booleans pass through, and
    /// everything else is true.
    pub fn truthy(&self) -> (r: bool)
        ensures
            r == item_truthy(self@),
    {
        match self {
            Item::Number(n) => *n != 0,
            Item::String(s) => s.as_str().unicode_len() != 0,
            Item::Boolean(b) => *b,
            Item::Name(_) => true,
            Item::Cons(c) => !c.is_empty(),
            Item::Nil => false,
        }
    }
}

/// The truth value of an item, as `if` sees it.
pub open spec fn item_truthy(m: ItemModel) -> bool {
    match m {
        ItemModel::Number(n) => n != 0,
        ItemModel::String(s) => s.len() != 0,
        ItemModel::Boolean(b) => b,
        ItemModel::Name(_) => true,
        ItemModel::Cons(c) => !spec_cons_is_empty(c),
        ItemModel::Nil => false,
    }
}

/// What `Cons::new` builds: a non-list tail makes an improper pair, a nil
/// tail makes a one-element proper list, and a list tail is flattened in,
/// keeping its properness.
pub open spec fn spec_cons_new(car: ItemModel, cdr: ItemModel) -> ConsModel {
    match cdr {
        ItemModel::Cons(c) => ConsModel { data: seq![car] + c.data, proper: c.proper },
        ItemModel::Nil => ConsModel { data: seq![car], proper: true },
        _ => ConsModel { data: seq![car, cdr], proper: false },
    }
}

/// What `Cons::cdr` returns: the raw tail of a two-element improper list,
/// nil after a one-element list, and otherwise the sliced suffix.
pub open spec fn spec_cons_cdr(c: ConsModel) -> ItemModel {
    if c.data.len() == 2 && !c.proper {
        c.data[1]
    } else if c.data.len() == 1 {
        ItemModel::Nil
    } else {
        ItemModel::Cons(ConsModel { data: c.data.subrange(1, c.data.len() as int), proper: c.proper })
    }
}

/// A `Cons` is the empty list when it holds exactly the empty value.
pub open spec fn spec_cons_is_empty(c: ConsModel) -> bool {
    c.data.len() == 1 && c.data[0] == ItemModel::Nil
}

/// Whether position `i` of the list holds an ordinary element (and not the
/// trailing value of an improper list).
pub open spec fn spec_can_index(c: ConsModel, i: int) -> bool {
    c.data.len() > i + 1 || (c.data.len() > i && c.proper)
}

/// Clones of the elements of `v`, equal to them in the model.
fn clone_items(v: &Vec<Item>) -> (res: Vec<Item>)
    ensures
        res@.len() == v@.len(),
        forall|i: int| 0 <= i < v@.len() ==> res@[i]@ == v@[i]@,
    decreases v,
{
    let mut res: Vec<Item> = Vec::new();
    let mut i: usize = 0;
    while i < v.len()
        invariant
            i <= v@.len(),
            res@.len() == i,
            forall|j: int| 0 <= j < i ==> res@[j]@ == v@[j]@,
        decreases v@.len() - i,
    {
        res.push(v[i].clone());
        i = i + 1;
    }
    res
}

impl Clone for Item {
    /// A deep copy, equal to the original in the model.
    fn clone(&self) -> (res: Item)
        ensures
            res@ == self@,
        decreases self,
    {
        match self {
            Item::Number(n) => Item::Number(*n),
            Item::String(s) => Item::String(s.clone()),
            Item::Boolean(b) => Item::Boolean(*b),
            Item::Name(n) => Item::Name(n.clone()),
            Item::Cons(c) => Item::Cons(c.clone()),
            Item::Nil => Item::Nil,
        }
    }
}

impl Clone for Cons {
    /// A deep copy, equal to the original in the model.
    fn clone(&self) -> (res: Cons)
        ensures
            res@ == self@,
        decreases self,
    {
        let data = clone_items(&self.data);
        proof {
            broadcast use crate::models::group_models;

            assert(items_view(data@) =~= items_view(self.data@));
        }
        Cons { data, is_null_terminated: self.is_null_terminated }
    }
}

impl Default for Cons {
    /// The empty list: one empty value, properly terminated.
    fn default() -> (r: Cons)
        ensures
            r@ == (ConsModel { data: seq![ItemModel::Nil], proper: true }),
            cons_model_wf(r@),
    {
        let r = Cons { data: vec![Item::Nil], is_null_terminated: true };
        proof {
            broadcast use crate::models::group_models;

            assert(r@.data =~= seq![ItemModel::Nil]);
            assert(item_model_wf(r@.data[0]));
        }
        r
    }
}

impl Cons {
    pub open spec fn wf(&self) -> bool {
        cons_model_wf(self@)
    }

    /// Builds the list with head `car` and tail `cdr`, normalising as
    /// `spec_cons_new` describes; the result is well formed whenever both
    /// arguments are.
    pub fn new(car: ConsElement, cdr: ConsElement) -> (r: Cons)
        ensures
            r@ == spec_cons_new(car@, cdr@),
            car.wf() && cdr.wf() ==> r.wf(),
    {
        let ghost car0 = car@;
        let ghost cdr0 = cdr@;
        let mut data: Vec<Item> = Vec::new();
        data.push(car);
        match cdr {
            Item::Cons(mut cons) => {
                let ghost cm = cons@;
                data.append(&mut cons.data);
                let r = Cons { data, is_null_terminated: cons.is_null_terminated };
                proof {
                    broadcast use crate::models::group_models;

                    assert(r@.data =~= seq![car0] + cm.data);
                    if item_model_wf(car0) && item_model_wf(cdr0) {
                        assert forall|i: int| 0 <= i < r@.data.len()
                            implies item_model_wf(#[trigger] r@.data[i]) by {
                            if i > 0 {
                                assert(r@.data[i] == cm.data[i - 1]);
                            }
                        }
                    }
                }
                r
            }
            Item::Nil => {
                let r = Cons { data, is_null_terminated: true };
                proof {
                    broadcast use crate::models::group_models;

                    assert(r@.data =~= seq![car0]);
                }
                r
            }
            other => {
                data.push(other);
                let r = Cons { data, is_null_terminated: false };
                proof {
                    broadcast use crate::models::group_models;

                    assert(r@.data =~= seq![car0, cdr0]);
                }
                r
            }
        }
    }

    /// The elements backing the list, in order.
    pub fn iter(&self) -> (r: &Vec<Item>)
        ensures
            items_view(r@) == self@.data,
    {
        &self.data
    }

    /// The first element. Well-formedness defends the ≥1-element invariant,
    /// so this never fails.
    pub fn car(&self) -> (r: &ConsElement)
        requires
            self@.data.len() >= 1,
        ensures
            r@ == self@.data[0],
    {
        proof {
            broadcast use crate::models::group_models;
        }
        &self.data[0]
    }

    /// The tail of the list, as `spec_cons_cdr` describes.
    pub fn cdr(&self) -> (r: ConsElement)
        requires
            self@.data.len() >= 1,
        ensures
            r@ == spec_cons_cdr(self@),
            self.wf() ==> r.wf(),
    {
        proof {
            broadcast use crate::models::group_models;
        }
        if self.data.len() == 2 && !self.is_null_terminated {
            self.data[1].clone()
        } else if self.data.len() == 1 {
            Item::Nil
        } else {
            let tail = tail_items(&self.data, 1);
            let r = Cons { data: tail, is_null_terminated: self.is_null_terminated };
            proof {
                broadcast use crate::models::group_models;

                assert(r@.data =~= self@.data.subrange(1, self@.data.len() as int));
            }
            Item::Cons(r)
        }
    }

    /// The element at position 1, present only in fixed-shape forms.
    pub fn cadr(&self) -> (r: &ConsElement)
        requires
            spec_can_index(self@, 1),
        ensures
            r@ == self@.data[1],
    {
        proof {
            broadcast use crate::models::group_models;
        }
        &self.data[1]
    }

    /// The element at position 2, present only in fixed-shape forms.
    pub fn caddr(&self) -> (r: &ConsElement)
        requires
            spec_can_index(self@, 2),
        ensures
            r@ == self@.data[2],
    {
        proof {
            broadcast use crate::models::group_models;
        }
        &self.data[2]
    }

    /// The element at position 3, present only in fixed-shape forms.
    pub fn cadddr(&self) -> (r: &ConsElement)
        requires
            spec_can_index(self@, 3),
        ensures
            r@ == self@.data[3],
    {
        proof {
            broadcast use crate::models::group_models;
        }
        &self.data[3]
    }

    /// Whether position `i` holds an ordinary element, checked at run
    /// time before the fixed-shape accessors are used.
    pub fn can_index(&self, i: usize) -> (r: bool)
        requires
            i < usize::MAX,
        ensures
            r == spec_can_index(self@, i as int),
    {
        proof {
            broadcast use crate::models::group_models;
        }
        self.data.len() > i + 1 || (self.data.len() > i && self.is_null_terminated)
    }

    /// The element at the given position.
    pub fn get(&self, i: usize) -> (r: &Item)
        requires
            i < self@.data.len(),
        ensures
            r@ == self@.data[i as int],
    {
        proof {
            broadcast use crate::models::group_models;
        }
        &self.data[i]
    }

    /// Clones of the body expressions of a fixed-shape form: every
    /// element from position 2 on.
    pub fn cddr_list(&self) -> (r: Vec<Item>)
        requires
            self@.data.len() >= 2,
        ensures
            items_view(r@) == self@.data.subrange(2, self@.data.len() as int),
    {
        proof {
            broadcast use crate::models::group_models;
        }
        let r = tail_items(&self.data, 2);
        proof {
            assert(items_view(r@) =~= self@.data.subrange(2, self@.data.len() as int));
        }
        r
    }

    /// Surrenders the backing elements, in order.
    pub fn into_vec(self) -> (r: Vec<Item>)
        ensures
            items_view(r@) == self@.data,
    {
        self.data
    }

    /// The number of backing elements (an improper tail counts as one).
    pub fn len(&self) -> (r: usize)
        ensures
            r == self@.data.len(),
    {
        proof {
            broadcast use crate::models::group_models;
        }
        self.data.len()
    }

    /// Whether the list is proper (nil-terminated).
    pub fn is_proper(&self) -> (r: bool)
        ensures
            r == self@.proper,
    {
        self.is_null_terminated
    }

    /// Whether this is the empty list `()`.
    pub fn is_empty(&self) -> (r: bool)
        ensures
            r == spec_cons_is_empty(self@),
    {
        proof {
            broadcast use crate::models::group_models;
        }
        self.data.len() == 1 && matches!(&self.data[0], Item::Nil)
    }
}

/// A function's formal-argument contract: an ordered list of names whose
/// arity must match exactly, or one variadic name capturing every argument.
#[derive(Debug, PartialEq, Eq)]
pub enum Parameters {
    Individual(Vec<String>),
    All(String),
}

/// The sequence of views of a sequence of strings.
pub open spec fn strings_view(s: Seq<String>) -> Seq<Seq<char>> {
    Seq::new(s.len(), |i: int| s[i]@)
}

/// Ghost mirror of `Parameters`.
pub enum ParametersModel {
    Individual(Seq<Seq<char>>),
    All(Seq<char>),
}

impl View for Parameters {
    type V = ParametersModel;

    open(crate) spec fn view(&self) -> ParametersModel {
        match self {
            Parameters::Individual(names) => ParametersModel::Individual(strings_view(names@)),
            Parameters::All(name) => ParametersModel::All(name@),
        }
    }
}

impl Clone for Parameters {
    /// A deep copy, equal to the original in the model.
    fn clone(&self) -> (res: Parameters)
        ensures
            res@ == self@,
    {
        match self {
            Parameters::Individual(names) => {
                let mut copy: Vec<String> = Vec::new();
                let mut i: usize = 0;
                while i < names.len()
                    invariant
                        i <= names@.len(),
                        copy@.len() == i,
                        forall|j: int| 0 <= j < i ==> copy@[j]@ == names@[j]@,
                    decreases names@.len() - i,
                {
                    copy.push(names[i].clone());
                    i = i + 1;
                }
                let ghost copy0 = copy@;
                let res = Parameters::Individual(copy);
                proof {
                    lemma_params_view_eq(self);
                    lemma_params_view_eq(&res);
                    assert(strings_view(copy0) =~= strings_view(names@));
                }
                res
            }
            Parameters::All(name) => Parameters::All(name.clone()),
        }
    }
}

/// The closed set of callables the machine can invoke: the native library's
/// stateless leaf functions, plus user closures made by `lambda`, which
/// carry their body expressions.
#[derive(Debug, PartialEq, Eq)]
pub enum Callable {
    Addition,
    Subtraction,
    Multiplication,
    Division,
    Modulo,
    LessThan,
    GreaterThan,
    Equals,
    ListCons,
    ListCar,
    ListCdr,
    IsNumber,
    IsString,
    IsBoolean,
    IsName,
    IsList,
    IsNil,
    IsFunction,
    Define,
    Quote,
    Lambda(Vec<Item>),
}

/// Ghost mirror of `Callable`.
pub enum CallableModel {
    Addition,
    Subtraction,
    Multiplication,
    Division,
    Modulo,
    LessThan,
    GreaterThan,
    Equals,
    ListCons,
    ListCar,
    ListCdr,
    IsNumber,
    IsString,
    IsBoolean,
    IsName,
    IsList,
    IsNil,
    IsFunction,
    Define,
    Quote,
    Lambda(Seq<ItemModel>),
}

impl View for Callable {
    type V = CallableModel;

    open(crate) spec fn view(&self) -> CallableModel {
        match self {
            Callable::Addition => CallableModel::Addition,
            Callable::Subtraction => CallableModel::Subtraction,
            Callable::Multiplication => CallableModel::Multiplication,
            Callable::Division => CallableModel::Division,
            Callable::Modulo => CallableModel::Modulo,
            Callable::LessThan => CallableModel::LessThan,
            Callable::GreaterThan => CallableModel::GreaterThan,
            Callable::Equals => CallableModel::Equals,
            Callable::ListCons => CallableModel::ListCons,
            Callable::ListCar => CallableModel::ListCar,
            Callable::ListCdr => CallableModel::ListCdr,
            Callable::IsNumber => CallableModel::IsNumber,
            Callable::IsString => CallableModel::IsString,
            Callable::IsBoolean => CallableModel::IsBoolean,
            Callable::IsName => CallableModel::IsName,
            Callable::IsList => CallableModel::IsList,
            Callable::IsNil => CallableModel::IsNil,
            Callable::IsFunction => CallableModel::IsFunction,
            Callable::Define => CallableModel::Define,
            Callable::Quote => CallableModel::Quote,
            Callable::Lambda(body) => CallableModel::Lambda(items_view(body@)),
        }
    }
}

impl Clone for Callable {
    /// A deep copy, equal to the original in the model.
    fn clone(&self) -> (res: Callable)
        ensures
            res@ == self@,
    {
        match self {
            Callable::Addition => Callable::Addition,
            Callable::Subtraction => Callable::Subtraction,
            Callable::Multiplication => Callable::Multiplication,
            Callable::Division => Callable::Division,
            Callable::Modulo => Callable::Modulo,
            Callable::LessThan => Callable::LessThan,
            Callable::GreaterThan => Callable::GreaterThan,
            Callable::Equals => Callable::Equals,
            Callable::ListCons => Callable::ListCons,
            Callable::ListCar => Callable::ListCar,
            Callable::ListCdr => Callable::ListCdr,
            Callable::IsNumber => Callable::IsNumber,
            Callable::IsString => Callable::IsString,
            Callable::IsBoolean => Callable::IsBoolean,
            Callable::IsName => Callable::IsName,
            Callable::IsList => Callable::IsList,
            Callable::IsNil => Callable::IsNil,
            Callable::IsFunction => Callable::IsFunction,
            Callable::Define => Callable::Define,
            Callable::Quote => Callable::Quote,
            Callable::Lambda(body) => {
                let copy = clone_items(body);
                proof {
                    broadcast use crate::models::group_models;

                    assert(items_view(copy@) =~= items_view(body@));
                }
                Callable::Lambda(copy)
            }
        }
    }
}

/// The runtime value exchanged through registers and environment bindings:
/// plain data, a named function with its parameter contract, the evaluated
/// argument list bound to a variadic parameter, or the absence marker.
#[derive(Debug, PartialEq, Eq)]
pub enum EnvItem {
    Function(String, Callable, Parameters),
    Data(Item),
    VariableBinding(Vec<EnvItem>),
    Nil,
}

pub type Output = EnvItem;

/// Ghost mirror of `EnvItem`.
pub enum EnvItemModel {
    Function(Seq<char>, CallableModel, ParametersModel),
    Data(ItemModel),
    VariableBinding(Seq<EnvItemModel>),
    Nil,
}

impl View for EnvItem {
    type V = EnvItemModel;

    open(crate) spec fn view(&self) -> EnvItemModel
        decreases self,
    {
        match self {
            EnvItem::Function(name, callable, params) => EnvItemModel::Function(
                name@,
                callable@,
                params@,
            ),
            EnvItem::Data(item) => EnvItemModel::Data(item@),
            EnvItem::VariableBinding(args) => EnvItemModel::VariableBinding(env_items_view(args@)),
            EnvItem::Nil => EnvItemModel::Nil,
        }
    }
}

/// The sequence of models of a sequence of runtime values.
pub open spec fn env_items_view(s: Seq<EnvItem>) -> Seq<EnvItemModel>
    decreases s,
{
    if s.len() == 0 {
        Seq::empty()
    } else {
        env_items_view(s.drop_last()).push(s.last()@)
    }
}


impl Clone for EnvItem {
    /// A deep copy, equal to the original in the model.
    fn clone(&self) -> (res: EnvItem)
        ensures
            res@ == self@,
        decreases self,
    {
        match self {
            EnvItem::Function(name, callable, params) => EnvItem::Function(
                name.clone(),
                callable.clone(),
                params.clone(),
            ),
            EnvItem::Data(item) => EnvItem::Data(item.clone()),
            EnvItem::VariableBinding(args) => {
                let copy = clone_env_items(args);
                proof {
                    broadcast use crate::models::group_models;

                    assert(env_items_view(copy@) =~= env_items_view(args@));
                }
                EnvItem::VariableBinding(copy)
            }
            EnvItem::Nil => EnvItem::Nil,
        }
    }
}

/// Building a cell and taking it apart: the head of `new(car, cdr)` is
/// `car` again, and its tail is `cdr` again — for every tail that is not
/// itself a list, and for every list tail of a shape `new` can build
/// (a one-element list is only built proper).
pub proof fn lemma_cons_new_car_cdr(car: ItemModel, cdr: ItemModel)
    requires
        cdr matches ItemModel::Cons(c) ==> c.data.len() >= 1 && (c.proper || c.data.len() >= 2),
    ensures
        spec_cons_new(car, cdr).data[0] == car,
        spec_cons_cdr(spec_cons_new(car, cdr)) == cdr,
{
    let built = spec_cons_new(car, cdr);
    match cdr {
        ItemModel::Cons(c) => {
            assert(built.data =~= seq![car] + c.data);
            assert(built.data.subrange(1, built.data.len() as int) =~= c.data);
        }
        ItemModel::Nil => {
            assert(built.data =~= seq![car]);
        }
        _ => {
            assert(built.data =~= seq![car, cdr]);
        }
    }
}

/// The value left after taking `cdr` `k` times.
pub open spec fn spec_iter_cdr(m: ItemModel, k: nat) -> ItemModel
    decreases k,
{
    if k == 0 {
        m
    } else {
        match spec_iter_cdr(m, (k - 1) as nat) {
            ItemModel::Cons(c) => spec_cons_cdr(c),
            other => other,
        }
    }
}

/// Taking `cdr` `k` times on a proper list leaves the proper suffix that
/// starts at position `k`.
pub proof fn lemma_iter_cdr_suffix(c: ConsModel, k: int)
    requires
        c.proper,
        0 <= k < c.data.len(),
    ensures
        spec_iter_cdr(ItemModel::Cons(c), k as nat) == ItemModel::Cons(
            ConsModel { data: c.data.subrange(k, c.data.len() as int), proper: true },
        ),
    decreases k,
{
    if k == 0 {
        assert(c.data.subrange(0, c.data.len() as int) =~= c.data);
    } else {
        lemma_iter_cdr_suffix(c, k - 1);
        let prev = ConsModel { data: c.data.subrange(k - 1, c.data.len() as int), proper: true };
        assert(spec_iter_cdr(ItemModel::Cons(c), k as nat) == spec_cons_cdr(prev));
        assert(prev.data.len() >= 2);
        assert(prev.data.subrange(1, prev.data.len() as int) =~= c.data.subrange(
            k,
            c.data.len() as int,
        ));
    }
}

/// The car/cdr round trip: on a proper list of n elements, taking `cdr`
/// n−1 times leaves the one-element proper list holding the last element,
/// so `car` then yields that element; and the `cdr` of a one-element
/// proper list is the empty value.
pub proof fn lemma_car_cdr_round_trip(c: ConsModel)
    requires
        c.proper,
        c.data.len() >= 1,
    ensures
        spec_iter_cdr(ItemModel::Cons(c), (c.data.len() - 1) as nat) == ItemModel::Cons(
            ConsModel { data: seq![c.data.last()], proper: true },
        ),
        spec_cons_cdr(ConsModel { data: seq![c.data.last()], proper: true }) == ItemModel::Nil,
{
    lemma_iter_cdr_suffix(c, c.data.len() - 1);
    assert(c.data.subrange(c.data.len() - 1, c.data.len() as int) =~= seq![c.data.last()]);
}

/// One lexical scope layer: an association list from names to values,
/// read as a map in which a later entry for a name wins.
type Layer = Vec<(String, EnvItem)>;

/// The map that a scope layer denotes; a later entry for a name wins.
pub closed spec fn layer_view(l: Seq<(String, EnvItem)>) -> Map<Seq<char>, EnvItemModel>
    decreases l.len(),
{
    if l.len() == 0 {
        Map::empty()
    } else {
        layer_view(l.drop_last()).insert(l.last().0@, l.last().1@)
    }
}

/// Entries at positions `j` and above bind none of `k`, so the layer's map
/// at `k` is decided by the prefix before `j`.
proof fn lemma_layer_view_skip(l: Seq<(String, EnvItem)>, k: Seq<char>, j: int)
    requires
        0 <= j <= l.len(),
        forall|i: int| j <= i < l.len() ==> (#[trigger] l[i]).0@ != k,
    ensures
        layer_view(l).contains_key(k) == layer_view(l.take(j)).contains_key(k),
        layer_view(l).contains_key(k) ==> layer_view(l)[k] == layer_view(l.take(j))[k],
    decreases l.len() - j,
{
    if j < l.len() {
        assert(l.last() == l[l.len() - 1]);
        assert(l.last().0@ != k);
        lemma_layer_view_skip(l.drop_last(), k, j);
        assert(l.drop_last().take(j) =~= l.take(j));
    } else {
        assert(l.take(j) =~= l);
    }
}

/// Replacing the last entry for `k` rewrites the layer's map at `k` alone.
proof fn lemma_layer_view_update(
    l: Seq<(String, EnvItem)>,
    i: int,
    p: (String, EnvItem),
    k: Seq<char>,
)
    requires
        0 <= i < l.len(),
        l[i].0@ == k,
        p.0@ == k,
        forall|m: int| i < m < l.len() ==> (#[trigger] l[m]).0@ != k,
    ensures
        layer_view(l.update(i, p)) == layer_view(l).insert(k, p.1@),
    decreases l.len(),
{
    if i == l.len() - 1 {
        assert(l.update(i, p).drop_last() =~= l.drop_last());
        assert(l.update(i, p).last() == p);
        assert(layer_view(l.update(i, p)) == layer_view(l.drop_last()).insert(k, p.1@));
        assert(layer_view(l.drop_last()).insert(k, p.1@) =~= layer_view(l.drop_last()).insert(
            k,
            l[i].1@,
        ).insert(k, p.1@));
    } else {
        assert(l.update(i, p).drop_last() =~= l.drop_last().update(i, p));
        assert(l.update(i, p).last() == l.last());
        lemma_layer_view_update(l.drop_last(), i, p, k);
        assert(l.last().0@ != k);
        assert(layer_view(l.drop_last()).insert(k, p.1@).insert(l.last().0@, l.last().1@)
            =~= layer_view(l.drop_last()).insert(l.last().0@, l.last().1@).insert(k, p.1@));
    }
}

/// Appending an entry inserts its binding into the layer's map.
proof fn lemma_layer_view_push(l: Seq<(String, EnvItem)>, p: (String, EnvItem))
    ensures
        layer_view(l.push(p)) == layer_view(l).insert(p.0@, p.1@),
{
    assert(l.push(p).drop_last() =~= l);
    assert(l.push(p).last() == p);
}

/// The position of the last entry for `key` in a layer, if any.
fn layer_find(layer: &Layer, key: &String) -> (r: Option<usize>)
    ensures
        match r {
            Some(i) => i < layer@.len() && layer@[i as int].0@ == key@ && (forall|m: int|
                i < m < layer@.len() ==> (#[trigger] layer@[m]).0@ != key@),
            None => forall|m: int| 0 <= m < layer@.len() ==> (#[trigger] layer@[m]).0@ != key@,
        },
{
    let mut j: usize = layer.len();
    while j > 0
        invariant
            j <= layer@.len(),
            forall|m: int| j <= m < layer@.len() ==> (#[trigger] layer@[m]).0@ != key@,
        decreases j,
    {
        if layer[j - 1].0 == *key {
            return Some(j - 1);
        }
        j = j - 1;
    }
    None
}

/// The value bound to `key` in one layer, if any, per the layer's map.
fn layer_get(layer: &Layer, key: &String) -> (r: Option<EnvItem>)
    ensures
        match r {
            Some(v) => layer_view(layer@).contains_key(key@) && v@ == layer_view(layer@)[key@],
            None => !layer_view(layer@).contains_key(key@),
        },
{
    match layer_find(layer, key) {
        Some(i) => {
            let v = layer[i].1.clone();
            proof {
                broadcast use crate::models::group_models;

                lemma_layer_view_skip(layer@, key@, i + 1);
                assert(layer@.take(i + 1).drop_last() =~= layer@.take(i as int));
                assert(layer@.take(i + 1).last() == layer@[i as int]);
            }
            Some(v)
        }
        None => {
            proof {
                broadcast use crate::models::group_models;

                lemma_layer_view_skip(layer@, key@, 0);
                assert(layer@.take(0) =~= Seq::empty());
            }
            None
        }
    }
}

/// Binds `key` to `value` in one layer, returning the prior value if any;
/// the layer's map gains exactly that binding.
fn layer_put(layer: &mut Layer, key: String, value: EnvItem) -> (r: Option<EnvItem>)
    ensures
        layer_view(final(layer)@) == layer_view(old(layer)@).insert(key@, value@),
        match r {
            Some(prev) => layer_view(old(layer)@).contains_key(key@) && prev@ == layer_view(
                old(layer)@,
            )[key@],
            None => !layer_view(old(layer)@).contains_key(key@),
        },
{
    match layer_find(layer, &key) {
        Some(i) => {
            let prev = layer[i].1.clone();
            proof {
                broadcast use crate::models::group_models;

                lemma_layer_view_skip(old(layer)@, key@, i + 1);
                assert(old(layer)@.take(i + 1).drop_last() =~= old(layer)@.take(i as int));
                assert(old(layer)@.take(i + 1).last() == old(layer)@[i as int]);
                lemma_layer_view_update(old(layer)@, i as int, (key, value), key@);
            }
            layer[i] = (key, value);
            Some(prev)
        }
        None => {
            proof {
                broadcast use crate::models::group_models;

                lemma_layer_view_skip(old(layer)@, key@, 0);
                assert(old(layer)@.take(0) =~= Seq::empty());
                lemma_layer_view_push(old(layer)@, (key, value));
            }
            layer.push((key, value));
            None
        }
    }
}

/// The ordered stack of lexical scope layers, innermost last.
pub struct Environment {
    pub(crate) variables: Vec<Layer>,
}

impl View for Environment {
    type V = Seq<Map<Seq<char>, EnvItemModel>>;

    open(crate) spec fn view(&self) -> Seq<Map<Seq<char>, EnvItemModel>> {
        Seq::new(self.variables@.len(), |i: int| layer_view(self.variables@[i]@))
    }
}

/// The innermost-first scan of the layer stack: the topmost layer that
/// binds the name decides, and an unbound name yields the absence marker.
pub open spec fn spec_env_lookup(
    layers: Seq<Map<Seq<char>, EnvItemModel>>,
    k: Seq<char>,
) -> EnvItemModel
    decreases layers.len(),
{
    if layers.len() == 0 {
        EnvItemModel::Nil
    } else if layers.last().contains_key(k) {
        layers.last()[k]
    } else {
        spec_env_lookup(layers.drop_last(), k)
    }
}

/// Layers at positions `j` and above bind none of `k`, so lookup is decided
/// by the layers below `j`.
proof fn lemma_env_lookup_skip(layers: Seq<Map<Seq<char>, EnvItemModel>>, k: Seq<char>, j: int)
    requires
        0 <= j <= layers.len(),
        forall|i: int| j <= i < layers.len() ==> !(#[trigger] layers[i]).contains_key(k),
    ensures
        spec_env_lookup(layers, k) == spec_env_lookup(layers.take(j), k),
    decreases layers.len() - j,
{
    if j < layers.len() {
        assert(layers.last() == layers[layers.len() - 1]);
        lemma_env_lookup_skip(layers.drop_last(), k, j);
        assert(layers.drop_last().take(j) =~= layers.take(j));
    } else {
        assert(layers.take(j) =~= layers);
    }
}

impl Default for Environment {
    /// A single, empty global layer.
    fn default() -> (r: Environment)
        ensures
            r@ == seq![Map::<Seq<char>, EnvItemModel>::empty()],
            r.wf(),
    {
        let mut variables: Vec<Layer> = Vec::new();
        variables.push(Vec::new());
        let r = Environment { variables };
        proof {
            broadcast use crate::models::group_models;

            assert(r@ =~= seq![Map::<Seq<char>, EnvItemModel>::empty()]);
        }
        r
    }
}

impl Environment {
    /// A well-formed environment always keeps at least one layer alive.
    pub open spec fn wf(&self) -> bool {
        self@.len() >= 1
    }

    /// Pushes a fresh, empty scope layer on top of the stack.
    pub fn push(&mut self)
        ensures
            final(self)@ == old(self)@.push(Map::<Seq<char>, EnvItemModel>::empty()),
            final(self).wf(),
    {
        self.variables.push(Vec::new());
        proof {
            broadcast use crate::models::group_models;

            assert(self@ =~= old(self)@.push(Map::<Seq<char>, EnvItemModel>::empty()));
        }
    }

    /// Pops the innermost layer; popping the last layer is a guarded no-op.
    pub fn pop(&mut self)
        ensures
            old(self)@.len() > 1 ==> final(self)@ == old(self)@.drop_last(),
            old(self)@.len() <= 1 ==> final(self)@ == old(self)@,
    {
        if self.variables.len() > 1 {
            self.variables.pop();
            proof {
                broadcast use crate::models::group_models;

                assert(self@ =~= old(self)@.drop_last());
            }
        }
    }

    /// Looks a name up, innermost layer first; the first hit wins, and an
    /// unbound name yields the absence marker rather than an error.
    pub fn lookup(&self, key: &str) -> (r: EnvItem)
        ensures
            r@ == spec_env_lookup(self@, key@),
    {
        let key_string: String = key.to_owned();
        let mut li: usize = self.variables.len();
        while li > 0
            invariant
                li <= self.variables@.len(),
                key_string@ == key@,
                forall|i: int|
                    li <= i < self@.len() ==> !(#[trigger] self@[i]).contains_key(key@),
        decreases li,
        {
            match layer_get(&self.variables[li - 1], &key_string) {
                Some(v) => {
                    proof {
                        broadcast use crate::models::group_models;

                        lemma_env_lookup_skip(self@, key@, li as int);
                        assert(self@.take(li as int).last() == self@[li - 1]);
                    }
                    return v;
                }
                None => {}
            }
            li = li - 1;
        }
        proof {
            broadcast use crate::models::group_models;

            lemma_env_lookup_skip(self@, key@, 0);
            assert(self@.take(0) =~= Seq::empty());
        }
        EnvItem::Nil
    }

    /// Binds `key` to `value` in the innermost layer, returning the prior
    /// value bound there, if any.
    pub fn assign(&mut self, key: &str, value: EnvItem) -> (r: Option<EnvItem>)
        requires
            old(self).wf(),
        ensures
            final(self)@.len() == old(self)@.len(),
            forall|i: int| 0 <= i < final(self)@.len() - 1 ==> final(self)@[i] == old(self)@[i],
            final(self)@.last() == old(self)@.last().insert(key@, value@),
            match r {
                Some(prev) => old(self)@.last().contains_key(key@) && prev@ == old(
                    self,
                )@.last()[key@],
                None => !old(self)@.last().contains_key(key@),
            },
            final(self).wf(),
    {
        let last: usize = self.variables.len() - 1;
        let r = layer_put(&mut self.variables[last], key.to_owned(), value);
        proof {
            broadcast use crate::models::group_models;

            assert(forall|i: int|
                0 <= i < self@.len() - 1 ==> self@[i] == old(self)@[i]);
        }
        r
    }

    /// Binds `key` to `value` in the outermost (global) layer, whatever the
    /// current depth: this is what a top-level definition must use.
    pub fn define(&mut self, key: &str, value: EnvItem) -> (r: Option<EnvItem>)
        requires
            old(self).wf(),
        ensures
            final(self)@.len() == old(self)@.len(),
            forall|i: int| 1 <= i < final(self)@.len() ==> final(self)@[i] == old(self)@[i],
            final(self)@[0] == old(self)@[0].insert(key@, value@),
            match r {
                Some(prev) => old(self)@[0].contains_key(key@) && prev@ == old(self)@[0][key@],
                None => !old(self)@[0].contains_key(key@),
            },
            final(self).wf(),
    {
        let r = layer_put(&mut self.variables[0], key.to_owned(), value);
        proof {
            broadcast use crate::models::group_models;

            assert(forall|i: int|
                1 <= i < self@.len() ==> self@[i] == old(self)@[i]);
        }
        r
    }
}

/// Lexical shadowing: with a fresh layer pushed and `k` bound in it, lookup
/// yields the new binding; dropping that layer restores the stack, so
/// lookup again yields whatever the outer layers decide.
pub proof fn lemma_shadowing(
    layers: Seq<Map<Seq<char>, EnvItemModel>>,
    k: Seq<char>,
    a: EnvItemModel,
)
    ensures
        spec_env_lookup(layers.push(Map::<Seq<char>, EnvItemModel>::empty().insert(k, a)), k) == a,
        layers.push(Map::<Seq<char>, EnvItemModel>::empty().insert(k, a)).drop_last() == layers,
{
    let top = Map::<Seq<char>, EnvItemModel>::empty().insert(k, a);
    assert(layers.push(top).last() == top);
    assert(layers.push(top).drop_last() =~= layers);
}

/// A global definition lands in the outermost layer whatever the current
/// depth; where no inner layer shadows the name, lookup then yields it.
pub proof fn lemma_define_global(
    layers: Seq<Map<Seq<char>, EnvItemModel>>,
    k: Seq<char>,
    c: EnvItemModel,
)
    requires
        layers.len() >= 1,
        forall|i: int| 1 <= i < layers.len() ==> !(#[trigger] layers[i]).contains_key(k),
    ensures
        spec_env_lookup(layers.update(0, layers[0].insert(k, c)), k) == c,
    decreases layers.len(),
{
    let l2 = layers.update(0, layers[0].insert(k, c));
    if layers.len() == 1 {
        assert(l2.last() == layers[0].insert(k, c));
    } else {
        assert(l2.last() == layers.last());
        assert(!layers.last().contains_key(k));
        lemma_define_global(layers.drop_last(), k, c);
        assert(l2.drop_last() =~= layers.drop_last().update(0, layers[0].insert(k, c)));
    }
}

/// Clones of the elements of `v`, equal to them in the model.
fn clone_env_items(v: &Vec<EnvItem>) -> (res: Vec<EnvItem>)
    ensures
        res@.len() == v@.len(),
        forall|i: int| 0 <= i < v@.len() ==> res@[i]@ == v@[i]@,
    decreases v,
{
    let mut res: Vec<EnvItem> = Vec::new();
    let mut i: usize = 0;
    while i < v.len()
        invariant
            i <= v@.len(),
            res@.len() == i,
            forall|j: int| 0 <= j < i ==> res@[j]@ == v@[j]@,
        decreases v@.len() - i,
    {
        res.push(v[i].clone());
        i = i + 1;
    }
    res
}

/// The defining equation of `Item`'s view, instantiated on demand where
/// a value is inspected through a reference.
proof fn lemma_item_view_eq(it: &Item)
    ensures
        it@ == (match *it {
            Item::Number(n) => ItemModel::Number(n as int),
            Item::String(s) => ItemModel::String(s@),
            Item::Boolean(b) => ItemModel::Boolean(b),
            Item::Name(n) => ItemModel::Name(n@),
            Item::Cons(c) => ItemModel::Cons(c@),
            Item::Nil => ItemModel::Nil,
        }),
{
}

/// The defining equation of `EnvItem`'s view, instantiated on demand.
proof fn lemma_env_item_view_eq(e: &EnvItem)
    ensures
        e@ == (match *e {
            EnvItem::Function(name, callable, params) => EnvItemModel::Function(
                name@,
                callable@,
                params@,
            ),
            EnvItem::Data(item) => EnvItemModel::Data(item@),
            EnvItem::VariableBinding(args) => EnvItemModel::VariableBinding(env_items_view(args@)),
            EnvItem::Nil => EnvItemModel::Nil,
        }),
{
}

/// The defining equation of `Parameters`' view, instantiated on demand.
proof fn lemma_params_view_eq(p: &Parameters)
    ensures
        p@ == (match *p {
            Parameters::Individual(names) => ParametersModel::Individual(strings_view(names@)),
            Parameters::All(name) => ParametersModel::All(name@),
        }),
{
}

/// Deep equality of two items: true exactly when their models coincide.
pub fn item_eq(a: &Item, b: &Item) -> (r: bool)
    ensures
        r == (a@ == b@),
    decreases a,
{
    proof {
        broadcast use crate::models::group_models;

        lemma_item_view_eq(a);
        lemma_item_view_eq(b);
    }
    match (a, b) {
        (Item::Number(x), Item::Number(y)) => x == y,
        (Item::String(x), Item::String(y)) => *x == *y,
        (Item::Boolean(x), Item::Boolean(y)) => x == y,
        (Item::Name(x), Item::Name(y)) => *x == *y,
        (Item::Cons(x), Item::Cons(y)) => cons_eq(x, y),
        (Item::Nil, Item::Nil) => true,
        _ => false,
    }
}

/// Deep equality of two lists: same elements in order, same properness.
pub fn cons_eq(a: &Cons, b: &Cons) -> (r: bool)
    ensures
        r == (a@ == b@),
    decreases a,
{
    proof {
        broadcast use crate::models::group_models;
    }
    if a.is_null_terminated != b.is_null_terminated {
        return false;
    }
    items_eq(&a.data, &b.data)
}

/// Pointwise deep equality of two item vectors.
fn items_eq(a: &Vec<Item>, b: &Vec<Item>) -> (r: bool)
    ensures
        r == (items_view(a@) == items_view(b@)),
    decreases a,
{
    proof {
        broadcast use crate::models::group_models;
    }
    if a.len() != b.len() {
        return false;
    }
    let mut i: usize = 0;
    while i < a.len()
        invariant
            a@.len() == b@.len(),
            i <= a@.len(),
            forall|j: int| 0 <= j < i ==> items_view(a@)[j] == items_view(b@)[j],
        decreases a@.len() - i,
    {
        proof {
            broadcast use crate::models::group_models;
        }
        if !item_eq(&a[i], &b[i]) {
            proof {
                assert(items_view(a@)[i as int] == a@[i as int]@);
                assert(items_view(b@)[i as int] == b@[i as int]@);
            }
            return false;
        }
        i = i + 1;
    }
    proof {
        broadcast use crate::models::group_models;

        assert(items_view(a@) =~= items_view(b@));
    }
    true
}

/// Deep equality of two runtime values; functions compare by name, body
/// and parameter contract.
pub fn env_item_eq(a: &EnvItem, b: &EnvItem) -> (r: bool)
    ensures
        r == (a@ == b@),
    decreases a,
{
    proof {
        broadcast use crate::models::group_models;

        lemma_env_item_view_eq(a);
        lemma_env_item_view_eq(b);
    }
    match (a, b) {
        (EnvItem::Function(n1, c1, p1), EnvItem::Function(n2, c2, p2)) => *n1 == *n2 && callable_eq(
            c1,
            c2,
        ) && params_eq(p1, p2),
        (EnvItem::Data(x), EnvItem::Data(y)) => item_eq(x, y),
        (EnvItem::VariableBinding(x), EnvItem::VariableBinding(y)) => env_items_eq(x, y),
        (EnvItem::Nil, EnvItem::Nil) => true,
        _ => false,
    }
}

/// Pointwise deep equality of two runtime-value vectors.
fn env_items_eq(a: &Vec<EnvItem>, b: &Vec<EnvItem>) -> (r: bool)
    ensures
        r == (env_items_view(a@) == env_items_view(b@)),
    decreases a,
{
    proof {
        broadcast use crate::models::group_models;
    }
    if a.len() != b.len() {
        return false;
    }
    let mut i: usize = 0;
    while i < a.len()
        invariant
            a@.len() == b@.len(),
            i <= a@.len(),
            forall|j: int| 0 <= j < i ==> env_items_view(a@)[j] == env_items_view(b@)[j],
        decreases a@.len() - i,
    {
        proof {
            broadcast use crate::models::group_models;
        }
        if !env_item_eq(&a[i], &b[i]) {
            proof {
                assert(env_items_view(a@)[i as int] == a@[i as int]@);
                assert(env_items_view(b@)[i as int] == b@[i as int]@);
            }
            return false;
        }
        i = i + 1;
    }
    proof {
        broadcast use crate::models::group_models;

        assert(env_items_view(a@) =~= env_items_view(b@));
    }
    true
}

/// Equality of two callables: natives compare by identity, closures by
/// their bodies.
fn callable_eq(a: &Callable, b: &Callable) -> (r: bool)
    ensures
        r == (a@ == b@),
    decreases a,
{
    proof {
        broadcast use crate::models::group_models;
    }
    match (a, b) {
        (Callable::Addition, Callable::Addition) => true,
        (Callable::Subtraction, Callable::Subtraction) => true,
        (Callable::Multiplication, Callable::Multiplication) => true,
        (Callable::Division, Callable::Division) => true,
        (Callable::Modulo, Callable::Modulo) => true,
        (Callable::LessThan, Callable::LessThan) => true,
        (Callable::GreaterThan, Callable::GreaterThan) => true,
        (Callable::Equals, Callable::Equals) => true,
        (Callable::ListCons, Callable::ListCons) => true,
        (Callable::ListCar, Callable::ListCar) => true,
        (Callable::ListCdr, Callable::ListCdr) => true,
        (Callable::IsNumber, Callable::IsNumber) => true,
        (Callable::IsString, Callable::IsString) => true,
        (Callable::IsBoolean, Callable::IsBoolean) => true,
        (Callable::IsName, Callable::IsName) => true,
        (Callable::IsList, Callable::IsList) => true,
        (Callable::IsNil, Callable::IsNil) => true,
        (Callable::IsFunction, Callable::IsFunction) => true,
        (Callable::Define, Callable::Define) => true,
        (Callable::Quote, Callable::Quote) => true,
        (Callable::Lambda(x), Callable::Lambda(y)) => items_eq(x, y),
        _ => false,
    }
}

/// Equality of two parameter contracts.
#[verifier::loop_isolation(false)]
fn params_eq(a: &Parameters, b: &Parameters) -> (r: bool)
    ensures
        r == (a@ == b@),
{
    proof {
        lemma_params_view_eq(a);
        lemma_params_view_eq(b);
    }
    match (a, b) {
        (Parameters::Individual(x), Parameters::Individual(y)) => {
            proof {
                assert(a@ == ParametersModel::Individual(strings_view(x@)));
                assert(b@ == ParametersModel::Individual(strings_view(y@)));
                assert(strings_view(x@).len() == x@.len());
                assert(strings_view(y@).len() == y@.len());
            }
            if x.len() != y.len() {
                return false;
            }
            let mut i: usize = 0;
            while i < x.len()
                invariant
                    x@.len() == y@.len(),
                    i <= x@.len(),
                    forall|j: int| 0 <= j < i ==> x@[j]@ == y@[j]@,
                decreases x@.len() - i,
            {
                let same = x[i] == y[i];
                if !same {
                    proof {
                        assert(!(x@[i as int]@ == y@[i as int]@));
                        assert(strings_view(x@)[i as int] == x@[i as int]@);
                        assert(strings_view(y@)[i as int] == y@[i as int]@);
                        assert(strings_view(x@) != strings_view(y@));
                        assert(a@ != b@);
                    }
                    return false;
                }
                i = i + 1;
            }
            proof {
                assert(strings_view(x@) =~= strings_view(y@));
            }
            true
        }
        (Parameters::All(x), Parameters::All(y)) => *x == *y,
        _ => false,
    }
}

/// Clones of the elements of `v` from position `from` on.
pub(crate) fn tail_items(v: &Vec<Item>, from: usize) -> (res: Vec<Item>)
    requires
        from <= v@.len(),
    ensures
        res@.len() == v@.len() - from,
        forall|i: int| 0 <= i < res@.len() ==> res@[i]@ == v@[from + i]@,
{
    let mut res: Vec<Item> = Vec::new();
    let mut i: usize = from;
    while i < v.len()
        invariant
            from <= i <= v@.len(),
            res@.len() == i - from,
            forall|j: int| 0 <= j < res@.len() ==> res@[j]@ == v@[from + j]@,
        decreases v@.len() - i,
    {
        res.push(v[i].clone());
        i = i + 1;
    }
    res
}

} // verus!

