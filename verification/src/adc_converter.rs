use vstd::prelude::*;

verus! {

/// The four voltage and four current readings taken at one moment.
#[derive(Copy, Clone, Debug, PartialEq, Eq)]
pub struct MeasurementSnapshot {
    pub voltages: [u16; 4],
    pub currents: [u16; 4],
}

/// Four zero readings.
pub open spec fn zero_channels() -> Seq<u16> {
    seq![0u16, 0u16, 0u16, 0u16]
}

impl MeasurementSnapshot {
    /// A snapshot holding exactly the given readings.
    pub fn new(voltages: [u16; 4], currents: [u16; 4]) -> (snapshot: Self)
        ensures
            snapshot.voltages == voltages,
            snapshot.currents == currents,
    {
        MeasurementSnapshot { voltages, currents }
    }

    /// A snapshot whose eight readings are all zero.
    pub fn zeroed() -> (snapshot: Self)
        ensures
            snapshot.voltages@ == zero_channels(),
            snapshot.currents@ == zero_channels(),
    {
        Self::new([0, 0, 0, 0], [0, 0, 0, 0])
    }
}

/// The latest readings of the sensor task, read back by the Modbus responder.
pub struct StoredValues {
    voltages: [u16; 4],
    currents: [u16; 4],
}

impl View for StoredValues {
    type V = MeasurementSnapshot;

    /// The stored readings, as a snapshot.
    closed spec fn view(&self) -> MeasurementSnapshot {
        MeasurementSnapshot { voltages: self.voltages, currents: self.currents }
    }
}

impl StoredValues {
    /// A store whose readings are all zero.
    pub fn new() -> (store: Self)
        ensures
            store@.voltages@ == zero_channels(),
            store@.currents@ == zero_channels(),
    {
        StoredValues { voltages: [0, 0, 0, 0], currents: [0, 0, 0, 0] }
    }

    /// Replaces all eight stored readings by the given ones; nothing of the earlier
    /// readings remains.
    pub fn update(&mut self, new_voltages: [u16; 4], new_currents: [u16; 4])
        ensures
            final(self)@ == (MeasurementSnapshot { voltages: new_voltages, currents: new_currents }),
    {
        self.voltages = new_voltages;
        self.currents = new_currents;
    }

    /// The stored readings as one snapshot.
    pub fn snapshot(&self) -> (snapshot: MeasurementSnapshot)
        ensures
            snapshot == self@,
    {
        MeasurementSnapshot { voltages: self.get_voltages(), currents: self.get_currents() }
    }

    /// The four stored voltages.
    pub fn get_voltages(&self) -> (voltages: [u16; 4])
        ensures
            voltages == self@.voltages,
    {
        self.voltages
    }

    /// The four stored currents.
    pub fn get_currents(&self) -> (currents: [u16; 4])
        ensures
            currents == self@.currents,
    {
        self.currents
    }
}

impl Default for StoredValues {
    /// The same as `StoredValues::new`.
    fn default() -> (store: Self)
        ensures
            store@.voltages@ == zero_channels(),
            store@.currents@ == zero_channels(),
    {
        Self::new()
    }
}

} // verus!
