//! Telling debug probes apart and finding the one that is asked for.
use crate::manager_error::ManagerError;
use crate::protocol::ProbeConfig;
use crate::text;
use crate::text::append_hex4;
use probe_rs::probe::DebugProbeSelector;
use std::str::FromStr;
use vstd::prelude::*;

verus! {

/// Vendor, product and serial number of a probe.
pub type ProbeKey = (u16, u16, Option<Seq<char>>);

/// Identifies a debug probe.
#[derive(Clone, Eq, PartialEq, Ord, PartialOrd, Hash, Debug)]
pub struct ProbeId {
    pub vendor_id: u16,
    pub product_id: u16,
    pub serial_number: Option<String>,
}

impl View for ProbeId {
    type V = ProbeKey;

    open spec fn view(&self) -> ProbeKey {
        (
            self.vendor_id,
            self.product_id,
            match self.serial_number {
                Some(serial) => Some(serial@),
                None => None,
            },
        )
    }
}

/// A probe in writing: vendor and product in hexadecimal, then the serial
/// number if there is one, with colons in between.
pub open spec fn probe_text(key: ProbeKey) -> Seq<char> {
    text::hex4(key.0) + ":"@ + text::hex4(key.1) + (match key.2 {
        Some(serial) => ":"@ + serial,
        None => Seq::<char>::empty(),
    })
}

impl ProbeId {
    /// Whether both stand for the same probe.
    pub fn same(&self, other: &ProbeId) -> (same: bool)
        ensures
            same == (self@ == other@),
    {
        let same_serial = match (&self.serial_number, &other.serial_number) {
            (Some(a), Some(b)) => *a == *b,
            (None, None) => true,
            _ => false,
        };
        self.vendor_id == other.vendor_id && self.product_id == other.product_id && same_serial
    }

    /// Whether this, as a selector, names that probe.
    pub fn names(&self, probe: &ProbeId) -> (yes: bool)
        ensures
            yes == named(self@, probe@),
    {
        let serial_fits = match (&self.serial_number, &probe.serial_number) {
            (None, _) => true,
            (Some(a), Some(b)) => *a == *b,
            (Some(_), None) => false,
        };
        self.vendor_id == probe.vendor_id && self.product_id == probe.product_id && serial_fits
    }

    /// The same identity once more.
    pub fn duplicate(&self) -> (copy: ProbeId)
        ensures
            copy == *self,
    {
        ProbeId {
            vendor_id: self.vendor_id,
            product_id: self.product_id,
            serial_number: match &self.serial_number {
                Some(serial) => Some(serial.clone()),
                None => None,
            },
        }
    }

    /// The probe in writing.
    pub fn display(&self) -> (text: String)
        ensures
            text@ == probe_text(self@),
    {
        let mut text = String::new();
        append_hex4(&mut text, self.vendor_id);
        text.append(":");
        append_hex4(&mut text, self.product_id);
        match &self.serial_number {
            Some(serial) => {
                text.append(":");
                text.append(serial.as_str());
            },
            None => {},
        }
        assert(text@ =~= probe_text(self@));
        text
    }
}

/// What a probe selector says: the probe it names, or why it names none.
pub open spec fn selection(parsed: Result<ProbeId, String>) -> Result<ProbeKey, Seq<char>> {
    match parsed {
        Ok(id) => Ok(id@),
        Err(text) => Err(text@),
    }
}

/// What `probe_rs::probe::DebugProbeSelector` reads out of a text: the vendor,
/// the product and the serial number, or the text of the error.
pub uninterp spec fn parsed_selector(text: Seq<char>) -> Result<
    (u16, u16, Option<Seq<char>>),
    Seq<char>,
>;

/// Calls `<probe_rs::probe::DebugProbeSelector as FromStr>::from_str`. What comes
/// out, the error's text included, goes by the text alone.
#[verifier::external_body]
fn parse_selector(text: &str) -> (parsed: Result<ProbeId, String>)
    ensures
        selection(parsed) == parsed_selector(text@),
{
    match DebugProbeSelector::from_str(text) {
        Ok(selector) => Ok(ProbeId {
            vendor_id: selector.vendor_id,
            product_id: selector.product_id,
            serial_number: selector.serial_number,
        }),
        Err(error) => Err(error.to_string()),
    }
}

/// The keys of a list of probes.
pub open spec fn keys(probes: Seq<ProbeId>) -> Seq<ProbeKey> {
    probes.map_values(|id: ProbeId| id@)
}

/// Whether a selector names a probe: by vendor and product, and by the serial number
/// too if the selector gives one.
pub open spec fn named(selector: ProbeKey, probe: ProbeKey) -> bool {
    &&& selector.0 == probe.0
    &&& selector.1 == probe.1
    &&& selector.2 matches Some(serial) ==> probe.2 == Some(serial)
}

/// A selector without a serial number names every probe with its vendor and product;
/// one with a serial number names only the probe that has that number.
pub proof fn serial_number_may_be_left_out(
    vendor: u16,
    product: u16,
    serial: Seq<char>,
    probe: ProbeKey,
)
    ensures
        named((vendor, product, None), probe) <==> probe.0 == vendor && probe.1 == product,
        named((vendor, product, Some(serial)), probe) <==> probe == (vendor, product, Some(serial)),
{
}

/// Which of the available probes a request is for. With a selector it is the
/// first probe that the selector names. Without one there must be exactly one
/// probe.
pub open spec fn chooses(
    selector: Option<Result<ProbeKey, Seq<char>>>,
    available: Seq<ProbeKey>,
    chosen: Result<usize, ManagerError>,
) -> bool {
    match selector {
        Some(Err(text)) => chosen matches Err(ManagerError::DebugProbeSelector(error)) && error@
            == text,
        Some(Ok(key)) => match chosen {
            Ok(index) => {
                &&& index < available.len()
                &&& named(key, available[index as int])
                &&& forall|j: int| 0 <= j < index ==> !named(key, #[trigger] available[j])
            },
            Err(error) => {
                &&& error matches ManagerError::ProbeNotFound(id) && id@ == key
                &&& forall|j: int| 0 <= j < available.len() ==> !named(key, #[trigger] available[j])
            },
        },
        None => if available.len() > 1 {
            chosen == Err::<usize, ManagerError>(ManagerError::NoProbeSelector)
        } else if available.len() == 1 {
            chosen == Ok::<usize, ManagerError>(0)
        } else {
            chosen == Err::<usize, ManagerError>(ManagerError::NoProbesAvailable)
        },
    }
}

/// What the selector of a request, if it has one, stands for.
pub open spec fn requested(cfg: ProbeConfig) -> Option<Result<ProbeKey, Seq<char>>> {
    match cfg.probe_selector {
        Some(text) => Some(parsed_selector(text@)),
        None => None,
    }
}

/// The place among the available probes of the one that a request asks for.
pub fn find_probe_info(cfg: &ProbeConfig, available: &Vec<ProbeId>) -> (chosen: Result<
    usize,
    ManagerError,
>)
    ensures
        chooses(requested(*cfg), keys(available@), chosen),
{
    let selector = match &cfg.probe_selector {
        Some(text) => Some(parse_selector(text.as_str())),
        None => None,
    };
    choose_probe(selector, available)
}

/// The place among the available probes of the one that a selector, as it was
/// read, stands for.
pub fn choose_probe(selector: Option<Result<ProbeId, String>>, available: &Vec<ProbeId>) -> (chosen:
    Result<usize, ManagerError>)
    ensures
        chooses(
            match selector {
                Some(parsed) => Some(selection(parsed)),
                None => None,
            },
            keys(available@),
            chosen,
        ),
{
    match selector {
        Some(Ok(id)) => {
            let mut index: usize = 0;
            #[verifier::loop_isolation(false)]
            while index < available.len()
                invariant
                    index <= available.len(),
                    forall|j: int| 0 <= j < index ==> !named(id@, #[trigger] keys(available@)[j]),
                decreases available.len() - index,
            {
                if id.names(&available[index]) {
                    return Ok(index);
                }
                index += 1;
            }
            Err(ManagerError::ProbeNotFound(id))
        },
        Some(Err(text)) => Err(ManagerError::DebugProbeSelector(text)),
        None => {
            // We support omitting the selector if there's only a single
            // available probe
            if available.len() > 1 {
                Err(ManagerError::NoProbeSelector)
            } else if available.len() == 1 {
                Ok(0)
            } else {
                Err(ManagerError::NoProbesAvailable)
            }
        },
    }
}

/// The text of a probe shows all there is to know of it: four hexadecimal digits for the
/// vendor and four for the product, a colon between them and, after another one, the serial
/// number.
pub proof fn text_shows_the_probe(key: ProbeKey)
    ensures
        ({
            let shown = probe_text(key);
            &&& shown.len() >= 9
            &&& text::value(shown.subrange(0, 4), 16) == Some(key.0 as nat)
            &&& shown[4] == ':'
            &&& text::value(shown.subrange(5, 9), 16) == Some(key.1 as nat)
            &&& match key.2 {
                None => shown.len() == 9,
                Some(serial) => {
                    &&& shown.len() == 10 + serial.len()
                    &&& shown[9] == ':'
                    &&& shown.skip(10) == serial
                },
            }
        }),
{
    reveal_strlit(":");
    let shown = probe_text(key);
    text::four_digits_stand_for_their_number(key.0);
    text::four_digits_stand_for_their_number(key.1);
    assert(shown.subrange(0, 4) =~= text::hex4(key.0));
    assert(shown.subrange(5, 9) =~= text::hex4(key.1));
    if let Some(serial) = key.2 {
        assert(shown.skip(10) =~= serial);
    }
}

/// Two probes with the same text are the same probe.
pub proof fn text_tells_probes_apart(a: ProbeKey, b: ProbeKey)
    requires
        probe_text(a) == probe_text(b),
    ensures
        a == b,
{
    text_shows_the_probe(a);
    text_shows_the_probe(b);
}

} // verus!
