//! Parameters of the processing path: named values with declared ranges,
//! read as ordered snapshots by the block streamer and written by a
//! controlling thread.

use vstd::prelude::*;
use vstd::string::StringExecFns;

verus! {

/// A parameter's current value. Numeric values are fixed-point thousandths:
/// `Number(1000)` stands for a multiplier of one.
#[derive(Clone, Copy, PartialEq, Eq, Structural, Debug)]
pub enum ParamValue {
    Number(i32),
    Boolean(bool),
}

/// Whether two values are of the same kind: both numeric, or both boolean.
pub open spec fn same_kind(a: ParamValue, b: ParamValue) -> bool {
    match (a, b) {
        (ParamValue::Number(_), ParamValue::Number(_)) => true,
        (ParamValue::Boolean(_), ParamValue::Boolean(_)) => true,
        _ => false,
    }
}

/// One named parameter with its declared range. The name and range are fixed
/// after creation; only `value` is ever written.
pub struct AudioParam {
    pub name: String,
    pub value: ParamValue,
    pub min: i32,
    pub max: i32,
}

/// An ordered store of parameters. Order is registration order, which is also
/// the order a transformation sees the values in its snapshot.
pub struct ParamStore {
    params: Vec<AudioParam>,
}

impl ParamStore {
    /// The ordered parameters.
    pub closed spec fn params(self) -> Seq<AudioParam> {
        self.params@
    }

    /// The ordered current values, as a transformation snapshot sees them.
    pub open spec fn values(self) -> Seq<ParamValue> {
        self.params().map_values(|p: AudioParam| p.value)
    }

    pub fn new() -> (r: ParamStore)
        ensures
            r.params() == Seq::<AudioParam>::empty(),
    {
        ParamStore { params: Vec::new() }
    }

    pub fn len(&self) -> (r: usize)
        ensures
            r == self.params().len(),
    {
        self.params.len()
    }

    /// Registers a parameter at the end of the order.
    pub fn add(&mut self, name: String, value: ParamValue, min: i32, max: i32)
        ensures
            final(self).params() == old(self).params().push(
                (AudioParam { name: name, value: value, min: min, max: max }),
            ),
    {
        self.params.push(AudioParam { name, value, min, max });
    }

    /// Clones the current value of every parameter, in order. The result is
    /// a snapshot: later writes to the store do not change it.
    pub fn get_snapshot(&self) -> (r: Vec<ParamValue>)
        ensures
            r@ == self.values(),
    {
        let mut snap: Vec<ParamValue> = Vec::new();
        let n = self.params.len();
        for i in 0..n
            invariant
                n == self.params@.len(),
                snap@ == self.values().take(i as int),
            decreases n - i,
        {
            snap.push(self.params[i].value);
            proof {
                assert(snap@ =~= self.values().take(i as int + 1));
            }
        }
        proof {
            assert(snap@ =~= self.values());
        }
        snap
    }

    /// The name a parameter was registered under.
    pub fn name_at(&self, index: usize) -> (r: &str)
        requires
            index < self.params().len(),
        ensures
            r@ == self.params()[index as int].name@,
    {
        self.params[index].name.as_str()
    }

    /// The declared range of a parameter.
    pub fn range_at(&self, index: usize) -> (r: (i32, i32))
        requires
            index < self.params().len(),
        ensures
            r.0 == self.params()[index as int].min,
            r.1 == self.params()[index as int].max,
    {
        (self.params[index].min, self.params[index].max)
    }

    /// Overwrites one parameter's value. The caller is responsible for
    /// clamping into the declared range first; nothing is asked here beyond
    /// the index and the value keeping the registered kind.
    pub fn set(&mut self, index: usize, value: ParamValue)
        requires
            index < old(self).params().len(),
            same_kind(old(self).params()[index as int].value, value),
        ensures
            final(self).params().len() == old(self).params().len(),
            final(self).params()[index as int].value == value,
            final(self).params()[index as int].name == old(self).params()[index as int].name,
            final(self).params()[index as int].min == old(self).params()[index as int].min,
            final(self).params()[index as int].max == old(self).params()[index as int].max,
            forall|j: int|
                0 <= j < old(self).params().len() && j != index ==> final(self).params()[j]
                    == old(self).params()[j],
    {
        let p = &mut self.params[index];
        p.value = value;
    }
}

/// Collects a module's parameter declarations and window setup before a
/// session is built around them. Everything here is configuration; opening
/// the audio source and the output device happens outside.
pub struct AudioAppBuilder {
    params: ParamStore,
    window_title: String,
}

impl AudioAppBuilder {
    pub closed spec fn spec_params(self) -> Seq<AudioParam> {
        self.params.params()
    }

    pub closed spec fn spec_window_title(self) -> Seq<char> {
        self.window_title@
    }

    pub fn new() -> (r: AudioAppBuilder)
        ensures
            r.spec_params() == Seq::<AudioParam>::empty(),
            r.spec_window_title() == "Audio Controller"@,
    {
        AudioAppBuilder {
            params: ParamStore::new(),
            window_title: String::from_str("Audio Controller"),
        }
    }

    /// Declares a parameter; order of calls is the order of the snapshot.
    pub fn add_param(self, name: &str, value: ParamValue, min: i32, max: i32) -> (r:
        AudioAppBuilder)
        ensures
            r.spec_params().len() == self.spec_params().len() + 1,
            r.spec_params().take(self.spec_params().len() as int) == self.spec_params(),
            r.spec_params().last().name@ == name@,
            r.spec_params().last().value == value,
            r.spec_params().last().min == min,
            r.spec_params().last().max == max,
            r.spec_window_title() == self.spec_window_title(),
    {
        let mut b = self;
        b.params.add(String::from_str(name), value, min, max);
        proof {
            assert(b.spec_params().take(self.spec_params().len() as int) =~= self.spec_params());
        }
        b
    }

    pub fn set_window_title(self, title: &str) -> (r: AudioAppBuilder)
        ensures
            r.spec_params() == self.spec_params(),
            r.spec_window_title() == title@,
    {
        let mut b = self;
        b.window_title = String::from_str(title);
        b
    }

    pub fn window_title(&self) -> (r: &str)
        ensures
            r@ == self.spec_window_title(),
    {
        self.window_title.as_str()
    }

    /// Hands the declared parameters over to the session that will run them.
    pub fn into_params(self) -> (r: ParamStore)
        ensures
            r.params() == self.spec_params(),
    {
        self.params
    }
}

} // verus!
