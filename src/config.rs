//! Configuration items and the rules that bound writes to their values.
use vstd::prelude::*;

verus! {

/// `c` is an ASCII decimal digit.
pub open spec fn is_digit(c: char) -> bool {
    '0' <= c && c <= '9'
}

/// The number that a run of decimal digits denotes.
pub open spec fn digits_value(d: Seq<char>) -> int
    decreases d.len(),
{
    if d.len() == 0 {
        0
    } else {
        digits_value(d.drop_last()) * 10 + ((d.last() as u32) - ('0' as u32))
    }
}

/// `s` without its leading `+`, if it has one.
pub open spec fn unsigned_digits(s: Seq<char>) -> Seq<char> {
    if s.len() > 0 && s[0] == '+' {
        s.drop_first()
    } else {
        s
    }
}

/// The number that `s` spells as an unsigned 32-bit decimal: an optional
/// leading `+`, then one or more digits, with a value that fits in `u32`.
pub open spec fn decimal_u32(s: Seq<char>) -> Option<u32> {
    let d = unsigned_digits(s);
    if d.len() > 0 && (forall|i: int| 0 <= i < d.len() ==> is_digit(#[trigger] d[i]))
        && digits_value(d) <= u32::MAX {
        Some(digits_value(d) as u32)
    } else {
        None
    }
}

/// The text that switches a boolean item on; anything else switches it off.
pub open spec fn switched_on(s: Seq<char>) -> bool {
    s == seq!['o', 'n']
}

/// A prefix of a run of digits denotes no more than the whole run.
proof fn lemma_digits_prefix(d: Seq<char>, j: int)
    requires
        0 <= j <= d.len(),
        forall|i: int| 0 <= i < d.len() ==> is_digit(#[trigger] d[i]),
    ensures
        0 <= digits_value(d.take(j)) <= digits_value(d),
    decreases d.len(),
{
    if d.len() > 0 {
        let p = d.drop_last();
        assert forall|i: int| 0 <= i < p.len() implies is_digit(#[trigger] p[i]) by {
            assert(p[i] == d[i]);
        }
        assert(is_digit(d[d.len() - 1]));
        if j < d.len() {
            assert(p.take(j) =~= d.take(j));
            lemma_digits_prefix(p, j);
        } else {
            assert(d.take(j) =~= d);
            lemma_digits_prefix(p, p.len() as int);
            assert(p.take(p.len() as int) =~= p);
        }
    }
}

/// Reads `s` as an unsigned 32-bit decimal, as `u32`'s `FromStr` does.
fn parse_decimal(s: &str) -> (r: Option<u32>)
    ensures
        r == decimal_u32(s@),
{
    let n = s.unicode_len();
    if n == 0 {
        return None;
    }
    let start: usize = if s.get_char(0) == '+' {
        1
    } else {
        0
    };
    let ghost d = unsigned_digits(s@);
    proof {
        assert(d =~= s@.subrange(start as int, n as int));
    }
    if start == n {
        return None;
    }
    let mut acc: u32 = 0;
    let mut i: usize = start;
    while i < n
        invariant
            start <= i <= n,
            n == s@.len(),
            d == s@.subrange(start as int, n as int),
            d == unsigned_digits(s@),
            d.len() > 0,
            acc as int == digits_value(d.take(i - start)),
            forall|j: int| 0 <= j < i - start ==> is_digit(#[trigger] d[j]),
        decreases n - i,
    {
        let c = s.get_char(i);
        proof {
            assert(d[i - start] == c);
        }
        if c < '0' || c > '9' {
            proof {
                assert(!is_digit(d[i - start]));
                assert(decimal_u32(s@) is None);
            }
            return None;
        }
        let digit = (c as u32) - ('0' as u32);
        proof {
            assert(d.take(i - start + 1).drop_last() =~= d.take(i - start));
            assert(d.take(i - start + 1).last() == c);
        }
        let next = match acc.checked_mul(10) {
            Some(x) => x.checked_add(digit),
            None => None,
        };
        match next {
            Some(v) => {
                acc = v;
            },
            None => {
                proof {
                    assert(digits_value(d.take(i - start + 1)) > u32::MAX);
                    if forall|j: int| 0 <= j < d.len() ==> is_digit(#[trigger] d[j]) {
                        lemma_digits_prefix(d, i - start + 1);
                        assert(digits_value(d) > u32::MAX);
                    }
                    assert(decimal_u32(s@) is None);
                }
                return None;
            },
        }
        i = i + 1;
    }
    proof {
        assert(d.take(n - start) =~= d);
    }
    Some(acc)
}

/// A configuration value seen as plain data: its current value together with
/// the rule that bounds later writes.
pub enum ValueModel {
    Text(Seq<char>),
    Integer { min: u32, max: u32, value: u32 },
    Selection { value: Seq<char>, options: Seq<(Seq<char>, Seq<char>)> },
    Flag(bool),
}

/// Some option of `options` has the value `v`.
pub open spec fn offers(options: Seq<(Seq<char>, Seq<char>)>, v: Seq<char>) -> bool {
    exists|i: int| 0 <= i < options.len() && (#[trigger] options[i]).0 == v
}

impl ValueModel {
    /// The value satisfies its own rule.
    pub open spec fn valid(self) -> bool {
        match self {
            ValueModel::Integer { min, max, value } => min <= value <= max,
            ValueModel::Selection { value, options } => offers(options, value),
            _ => true,
        }
    }

    /// The value after a write of the text `s`, or `None` where the rule
    /// refuses it. Text takes any string; an integer takes a decimal within
    /// its bounds; a selection takes the value of one of its options; a flag
    /// becomes true on `on` and false on anything else.
    pub open spec fn assign(self, s: Seq<char>) -> Option<ValueModel> {
        match self {
            ValueModel::Text(_) => Some(ValueModel::Text(s)),
            ValueModel::Integer { min, max, value } => match decimal_u32(s) {
                Some(i) => if min <= i && i <= max {
                    Some(ValueModel::Integer { min, max, value: i })
                } else {
                    None
                },
                None => None,
            },
            ValueModel::Selection { value, options } => if offers(options, s) {
                Some(ValueModel::Selection { value: s, options })
            } else {
                None
            },
            ValueModel::Flag(_) => Some(ValueModel::Flag(switched_on(s))),
        }
    }
}

/// A configuration item seen as plain data.
pub struct ItemModel {
    pub name: Seq<char>,
    pub title: Seq<char>,
    pub value: ValueModel,
}

/// One named, titled setting of a device.
pub struct ConfigItem {
    pub name: String,
    pub title: String,
    pub value: ConfigValue,
}

impl View for ConfigItem {
    type V = ItemModel;

    open spec fn view(&self) -> ItemModel {
        ItemModel { name: self.name@, title: self.title@, value: self.value@ }
    }
}

impl Clone for ConfigItem {
    fn clone(&self) -> (r: Self)
        ensures
            r@ == self@,
    {
        ConfigItem { name: self.name.clone(), title: self.title.clone(), value: self.value.clone() }
    }
}

/// The kinds of settings, each with its value and the rule for writes.
pub enum ConfigValue {
    String(ConfigString),
    Integer(ConfigInteger),
    Selection(ConfigSelection),
    Bool(ConfigBool),
}

impl View for ConfigValue {
    type V = ValueModel;

    open spec fn view(&self) -> ValueModel {
        match self {
            ConfigValue::String(c) => ValueModel::Text(c.value@),
            ConfigValue::Integer(c) => ValueModel::Integer {
                min: c@.min,
                max: c@.max,
                value: c@.value,
            },
            ConfigValue::Selection(c) => ValueModel::Selection { value: c@.0, options: c@.1 },
            ConfigValue::Bool(c) => ValueModel::Flag(c.value),
        }
    }
}

impl Clone for ConfigValue {
    fn clone(&self) -> (r: Self)
        ensures
            r@ == self@,
    {
        match self {
            ConfigValue::String(c) => ConfigValue::String(c.clone()),
            ConfigValue::Integer(c) => ConfigValue::Integer(c.clone()),
            ConfigValue::Selection(c) => ConfigValue::Selection(c.clone()),
            ConfigValue::Bool(c) => ConfigValue::Bool(c.clone()),
        }
    }
}

/// Some choice of `options` has a value equal to `s`; returns its index.
fn find_choice(options: &Vec<Choice>, s: &String) -> (r: Option<usize>)
    ensures
        r is Some <==> offers(options@.map_values(|o: Choice| o@), s@),
{
    let ghost opts = options@.map_values(|o: Choice| o@);
    let mut i: usize = 0;
    while i < options.len()
        invariant
            i <= options@.len(),
            opts == options@.map_values(|o: Choice| o@),
            forall|j: int| 0 <= j < i ==> (#[trigger] opts[j]).0 != s@,
        decreases options@.len() - i,
    {
        if options[i].value == *s {
            assert(opts[i as int].0 == s@);
            return Some(i);
        }
        i = i + 1;
    }
    None
}

impl ConfigValue {
    /// Whether the value satisfies its rule: always, since construction and
    /// every write keep it so.
    pub fn is_valid(&self) -> (r: bool)
        ensures
            r,
            self@.valid(),
    {
        match self {
            ConfigValue::Integer(c) => {
                proof {
                    use_type_invariant(c);
                }
                true
            },
            ConfigValue::Selection(c) => {
                proof {
                    use_type_invariant(c);
                }
                true
            },
            _ => true,
        }
    }

    /// Whether a write of `s` would be taken, without making it.
    pub fn accepts(&self, s: &str) -> (r: bool)
        ensures
            r == self@.assign(s@) is Some,
    {
        match self {
            ConfigValue::String(_) => true,
            ConfigValue::Integer(c) => match parse_decimal(s) {
                Some(i) => c.0.min <= i && i <= c.0.max,
                None => false,
            },
            ConfigValue::Selection(c) => {
                let owned = s.to_owned();
                find_choice(&c.0.options, &owned).is_some()
            },
            ConfigValue::Bool(_) => true,
        }
    }

    /// Writes the text `s` into the value where its rule takes it, and
    /// returns whether it did; a refused write leaves the value as it was.
    pub fn try_set_value(&mut self, s: &str) -> (r: bool)
        ensures
            r == old(self)@.assign(s@) is Some,
            r ==> final(self)@ == old(self)@.assign(s@).unwrap(),
            !r ==> *final(self) == *old(self),
            final(self)@.valid(),
    {
        let r = match self {
            ConfigValue::String(conf) => {
                conf.value = s.to_owned();
                true
            },
            ConfigValue::Integer(conf) => match parse_decimal(s) {
                Some(i) => {
                    if conf.0.min <= i && i <= conf.0.max {
                        let raw = RawConfigInteger { min: conf.0.min, max: conf.0.max, value: i };
                        *conf = ConfigInteger(raw);
                        true
                    } else {
                        false
                    }
                },
                None => false,
            },
            ConfigValue::Selection(conf) => {
                let owned = s.to_owned();
                match find_choice(&conf.0.options, &owned) {
                    Some(_) => {
                        let options = conf.0.clone().options;
                        let raw = RawConfigSelection { value: owned, options };
                        *conf = ConfigSelection(raw);
                        true
                    },
                    None => false,
                }
            },
            ConfigValue::Bool(conf) => {
                conf.value = is_on(s);
                true
            },
        };
        self.is_valid();
        r
    }
}

/// `s` is the text `on`.
fn is_on(s: &str) -> (r: bool)
    ensures
        r == switched_on(s@),
{
    let n = s.unicode_len();
    if n != 2 {
        return false;
    }
    let r = s.get_char(0) == 'o' && s.get_char(1) == 'n';
    proof {
        if r {
            assert(s@ =~= seq!['o', 'n']);
        }
    }
    r
}

/// A free-text setting.
pub struct ConfigString {
    pub value: String,
}

impl Clone for ConfigString {
    fn clone(&self) -> (r: Self)
        ensures
            r == *self,
    {
        ConfigString { value: self.value.clone() }
    }
}

/// An on/off setting.
pub struct ConfigBool {
    pub value: bool,
}

impl Clone for ConfigBool {
    fn clone(&self) -> (r: Self)
        ensures
            r == *self,
    {
        ConfigBool { value: self.value }
    }
}

impl ConfigBool {
    pub fn new(value: bool) -> (r: Self)
        ensures
            r.value == value,
    {
        ConfigBool { value }
    }
}

impl From<bool> for ConfigBool {
    fn from(b: bool) -> (r: Self) {
        ConfigBool { value: b }
    }
}

impl vstd::std_specs::convert::FromSpecImpl<bool> for ConfigBool {
    open spec fn obeys_from_spec() -> bool {
        true
    }

    open spec fn from_spec(b: bool) -> ConfigBool {
        ConfigBool { value: b }
    }
}

/// The fields of an integer setting, before its bounds are checked.
pub struct RawConfigInteger {
    pub min: u32,
    pub max: u32,
    pub value: u32,
}

impl Clone for RawConfigInteger {
    fn clone(&self) -> (r: Self)
        ensures
            r == *self,
    {
        RawConfigInteger { min: self.min, max: self.max, value: self.value }
    }
}

/// An integer setting whose value lies within its bounds.
pub struct ConfigInteger(RawConfigInteger);

impl View for ConfigInteger {
    type V = RawConfigInteger;

    closed spec fn view(&self) -> RawConfigInteger {
        self.0
    }
}

impl Clone for ConfigInteger {
    fn clone(&self) -> (r: Self)
        ensures
            r == *self,
    {
        proof {
            use_type_invariant(self);
        }
        ConfigInteger(self.0.clone())
    }
}

impl ConfigInteger {
    #[verifier::type_invariant]
    spec fn bounded(self) -> bool {
        self.0.min <= self.0.value <= self.0.max
    }

    /// An integer setting, or an error where `value` lies outside `[min, max]`.
    pub fn new(min: u32, max: u32, value: u32) -> (r: Result<Self, &'static str>)
        ensures
            r is Ok <==> min <= value <= max,
            r matches Ok(c) ==> c@ == (RawConfigInteger { min, max, value }),
            r matches Err(e) ==> e@ == "value is not in range"@,
    {
        Self::try_from_raw(RawConfigInteger { min, max, value })
    }

    /// Checks the bounds of `raw`.
    pub fn try_from_raw(raw: RawConfigInteger) -> (r: Result<Self, &'static str>)
        ensures
            r is Ok <==> raw.min <= raw.value <= raw.max,
            r matches Ok(c) ==> c@ == raw,
            r matches Err(e) ==> e@ == "value is not in range"@,
    {
        if raw.min <= raw.value && raw.value <= raw.max {
            Ok(ConfigInteger(raw))
        } else {
            Err("value is not in range")
        }
    }

    /// The fields of the setting.
    pub fn raw(&self) -> (r: &RawConfigInteger)
        ensures
            *r == self@,
            r.min <= r.value <= r.max,
    {
        proof {
            use_type_invariant(self);
        }
        &self.0
    }
}

/// The fields of a selection setting, before its value is checked against
/// its options.
pub struct RawConfigSelection {
    pub value: String,
    pub options: Vec<Choice>,
}

impl View for RawConfigSelection {
    type V = (Seq<char>, Seq<(Seq<char>, Seq<char>)>);

    open spec fn view(&self) -> (Seq<char>, Seq<(Seq<char>, Seq<char>)>) {
        (self.value@, self.options@.map_values(|o: Choice| o@))
    }
}

impl Clone for RawConfigSelection {
    fn clone(&self) -> (r: Self)
        ensures
            r@ == self@,
    {
        let options = self.options.clone();
        proof {
            assert forall|i: int| 0 <= i < options@.len() implies options@[i] == self.options@[i] by {
                assert(cloned::<Choice>(self.options[i], options[i]));
            }
            assert(options@.map_values(|o: Choice| o@) =~= self.options@.map_values(|o: Choice| o@));
        }
        RawConfigSelection { value: self.value.clone(), options }
    }
}

/// A selection setting whose value is that of one of its options.
pub struct ConfigSelection(RawConfigSelection);

impl View for ConfigSelection {
    type V = (Seq<char>, Seq<(Seq<char>, Seq<char>)>);

    closed spec fn view(&self) -> (Seq<char>, Seq<(Seq<char>, Seq<char>)>) {
        self.0@
    }
}

impl Clone for ConfigSelection {
    fn clone(&self) -> (r: Self)
        ensures
            r@ == self@,
    {
        proof {
            use_type_invariant(self);
        }
        ConfigSelection(self.0.clone())
    }
}

impl ConfigSelection {
    #[verifier::type_invariant]
    spec fn offered(self) -> bool {
        offers(self.0@.1, self.0@.0)
    }

    /// A selection setting, or an error where `value` is not the value of
    /// any of `options`.
    pub fn new(value: String, options: Vec<Choice>) -> (r: Result<Self, &'static str>)
        ensures
            r is Ok <==> offers(options@.map_values(|o: Choice| o@), value@),
            r matches Ok(c) ==> c@ == (value@, options@.map_values(|o: Choice| o@)),
            r matches Err(e) ==> e@ == "value does not match any choices"@,
    {
        Self::try_from_raw(RawConfigSelection { value, options })
    }

    /// Checks the value of `raw` against its options.
    pub fn try_from_raw(raw: RawConfigSelection) -> (r: Result<Self, &'static str>)
        ensures
            r is Ok <==> offers(raw.options@.map_values(|o: Choice| o@), raw.value@),
            r matches Ok(c) ==> c@ == raw@,
            r matches Err(e) ==> e@ == "value does not match any choices"@,
    {
        if find_choice(&raw.options, &raw.value).is_some() {
            Ok(ConfigSelection(raw))
        } else {
            Err("value does not match any choices")
        }
    }

    /// The fields of the setting.
    pub fn raw(&self) -> (r: &RawConfigSelection)
        ensures
            r@ == self@,
            offers(r@.1, r@.0),
    {
        proof {
            use_type_invariant(self);
        }
        &self.0
    }
}

/// One option of a selection setting: the value it stands for and its title.
pub struct Choice {
    pub value: String,
    pub title: String,
}

impl View for Choice {
    type V = (Seq<char>, Seq<char>);

    open spec fn view(&self) -> (Seq<char>, Seq<char>) {
        (self.value@, self.title@)
    }
}

impl Clone for Choice {
    fn clone(&self) -> (r: Self)
        ensures
            r == *self,
    {
        Choice { value: self.value.clone(), title: self.title.clone() }
    }
}

impl Choice {
    pub fn new(value: String, title: String) -> (r: Self)
        ensures
            r.value == value,
            r.title == title,
    {
        Choice { value, title }
    }
}

} // verus!
