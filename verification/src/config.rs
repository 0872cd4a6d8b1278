//! Settings of the two serial links and the display names of the device's
//! keys, ADC channels and LEDs.

use vstd::prelude::*;
use vstd::string::StringExecFns;

verus! {

/// Settings of the serial link to the key matrix.
#[derive(Debug, Clone)]
pub struct SerialConfig {
    pub port: String,
    pub baud_rate: u32,
    pub data_bits: u8,
    pub stop_bits: u8,
    pub parity: String,
}

/// Settings of the serial link to the screen.
#[derive(Debug, Clone)]
pub struct SerialScreenConfig {
    pub enabled: bool,
    pub port: String,
    pub baud_rate: u32,
    pub data_bits: u8,
    pub stop_bits: u8,
    pub parity: String,
}

/// What was last received from the matrix, and whether it is muted.
#[derive(Debug, Clone)]
pub struct MatrixMapping {
    pub last_received: String,
    pub mute_status: bool,
}

/// The whole configuration: both links and the display names.
#[derive(Debug, Clone)]
pub struct MatrixConfig {
    pub serial_matrix: SerialConfig,
    pub serial_screen: SerialScreenConfig,
    pub key_names: Vec<String>,
    pub adc_names: Vec<String>,
    pub led_names: Vec<String>,
}

/// The character of the decimal digit `d`.
pub open spec fn digit_char(d: int) -> char {
    if d == 0 {
        '0'
    } else if d == 1 {
        '1'
    } else if d == 2 {
        '2'
    } else if d == 3 {
        '3'
    } else if d == 4 {
        '4'
    } else if d == 5 {
        '5'
    } else if d == 6 {
        '6'
    } else if d == 7 {
        '7'
    } else if d == 8 {
        '8'
    } else {
        '9'
    }
}

/// The decimal numeral of `n`, without leading zeros.
pub open spec fn decimal(n: nat) -> Seq<char>
    decreases n,
{
    if n < 10 {
        seq![digit_char(n as int)]
    } else {
        decimal(n / 10).push(digit_char((n % 10) as int))
    }
}

/// A display name: the prefix, a space and the number.
pub open spec fn numbered(prefix: Seq<char>, n: nat) -> Seq<char> {
    prefix + seq![' '] + decimal(n)
}

/// The names that a default configuration gives to `count` items: the prefix
/// numbered from 1.
pub open spec fn default_names(names: Seq<String>, prefix: Seq<char>, count: nat) -> bool {
    &&& names.len() == count
    &&& forall|i: int| 0 <= i < count ==> (#[trigger] names[i])@ == numbered(prefix, (i + 1) as nat)
}

/// The one-character string of a decimal digit.
fn digit_str(d: usize) -> (s: &'static str)
    requires
        d < 10,
    ensures
        s@ == seq![digit_char(d as int)],
{
    proof {
        reveal_strlit("0");
        reveal_strlit("1");
        reveal_strlit("2");
        reveal_strlit("3");
        reveal_strlit("4");
        reveal_strlit("5");
        reveal_strlit("6");
        reveal_strlit("7");
        reveal_strlit("8");
        reveal_strlit("9");
    }
    let s = if d == 0 {
        "0"
    } else if d == 1 {
        "1"
    } else if d == 2 {
        "2"
    } else if d == 3 {
        "3"
    } else if d == 4 {
        "4"
    } else if d == 5 {
        "5"
    } else if d == 6 {
        "6"
    } else if d == 7 {
        "7"
    } else if d == 8 {
        "8"
    } else {
        "9"
    };
    assert(s@ =~= seq![digit_char(d as int)]);
    s
}

/// Appends the decimal numeral of `n` to `text`.
pub fn append_decimal(text: &mut String, n: usize)
    ensures
        final(text)@ == old(text)@ + decimal(n as nat),
    decreases n,
{
    if n >= 10 {
        append_decimal(text, n / 10);
    }
    text.append(digit_str(n % 10));
    proof {
        if n >= 10 {
            assert(old(text)@ + decimal((n / 10) as nat) + seq![digit_char((n % 10) as int)]
                =~= old(text)@ + decimal(n as nat));
        }
    }
}

/// Builds the display name of item `n`: the prefix, a space and `n`.
pub fn numbered_name(prefix: &str, n: usize) -> (name: String)
    ensures
        name@ == numbered(prefix@, n as nat),
{
    let mut name = String::from_str(prefix);
    proof {
        reveal_strlit(" ");
    }
    name.append(" ");
    assert(" "@ =~= seq![' ']);
    append_decimal(&mut name, n);
    name
}

/// Builds the display names of `count` items, numbered from 1.
pub fn numbered_names(prefix: &str, count: usize) -> (names: Vec<String>)
    requires
        count < usize::MAX,
    ensures
        default_names(names@, prefix@, count as nat),
{
    let mut names: Vec<String> = Vec::new();
    let mut i: usize = 0;
    while i < count
        invariant
            i <= count < usize::MAX,
            default_names(names@, prefix@, i as nat),
        decreases count - i,
    {
        let name = numbered_name(prefix, i + 1);
        names.push(name);
        i += 1;
    }
    names
}

impl Default for MatrixConfig {
    /// The configuration of a first start: both links at 9600 baud, 8 data
    /// bits, 1 stop bit, no parity, the screen switched off, and every key,
    /// ADC channel and LED named by its number.
    fn default() -> (config: Self)
        ensures
            config.serial_matrix.port@ == "COM1"@,
            config.serial_matrix.baud_rate == 9600,
            config.serial_matrix.data_bits == 8,
            config.serial_matrix.stop_bits == 1,
            config.serial_matrix.parity@ == "None"@,
            !config.serial_screen.enabled,
            config.serial_screen.port@ == "COM2"@,
            config.serial_screen.baud_rate == 9600,
            config.serial_screen.data_bits == 8,
            config.serial_screen.stop_bits == 1,
            config.serial_screen.parity@ == "None"@,
            default_names(config.key_names@, "按键"@, 24),
            default_names(config.adc_names@, "ADC"@, 14),
            default_names(config.led_names@, "LED"@, 20),
    {
        MatrixConfig {
            serial_matrix: SerialConfig {
                port: String::from_str("COM1"),
                baud_rate: 9600,
                data_bits: 8,
                stop_bits: 1,
                parity: String::from_str("None"),
            },
            serial_screen: SerialScreenConfig {
                enabled: false,
                port: String::from_str("COM2"),
                baud_rate: 9600,
                data_bits: 8,
                stop_bits: 1,
                parity: String::from_str("None"),
            },
            key_names: numbered_names("按键", 24),
            adc_names: numbered_names("ADC", 14),
            led_names: numbered_names("LED", 20),
        }
    }
}

} // verus!
