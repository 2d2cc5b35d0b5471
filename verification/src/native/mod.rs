//! Native methods: the methods of the class library that the virtual machine implements
//! itself, found by the name of their class, their name and their descriptor.

use vstd::prelude::*;

use crate::java::method_type::method_descriptor;
use crate::method_area::{MethodArea, area_wf};

pub mod lang;
pub mod trace;

verus! {

/// The implementation of a native method.
#[derive(Clone, Copy, Debug, PartialEq, Eq, Structural)]
pub enum Native {
    RobustaPrintlnInt,
    RobustaPrintlnString,
    RobustaPrinterrString,
    RobustaExit,
    StringIntern,
    NoOp,
    ArrayBaseOffset,
    ArrayIndexScale,
    AddressSize,
    GetCallerClass,
    AssertionStatus,
    FloatToIntBits,
    DoubleToLongBits,
    LongBitsToDouble,
    GetPrimitiveClass,
    ObjectGetClass,
    ObjectHashCode,
    FillInStackTrace,
    IntegerToString,
    ThreadStart,
    ThreadSleep,
    ThreadJoin,
    ThreadJoinMillis,
    CurrentThread,
    DoPrivileged,
    DoPrivileged2,
    RegisterNatives,
    InitProperties,
    SetIn0,
    SetOut0,
    SetErr0,
    GetIntVolatile,
    Wait,
    Notify,
    NotifyAll,
}

/// A native method as a value: the class, name and descriptor of the method it implements,
/// and its implementation.
pub struct NativeDecl {
    pub class: Seq<char>,
    pub name: Seq<char>,
    pub descriptor: Seq<char>,
    pub native: Native,
}

/// A native method: the class, name and descriptor of the method it implements, and its
/// implementation.
pub struct NativeEntry {
    pub class: String,
    pub name: String,
    pub descriptor: String,
    pub native: Native,
}

impl View for NativeEntry {
    type V = NativeDecl;

    open spec fn view(&self) -> NativeDecl {
        NativeDecl { class: self.class@, name: self.name@, descriptor: self.descriptor@, native: self.native }
    }
}

/// The natives of `entries`, as values.
pub open spec fn decls(entries: Seq<NativeEntry>) -> Seq<NativeDecl> {
    entries.map_values(|e: NativeEntry| e@)
}

/// The declaration of a native method.
pub open spec fn decl(class: &str, name: &str, descriptor: &str, native: Native) -> NativeDecl {
    NativeDecl { class: class@, name: name@, descriptor: descriptor@, native }
}

/// A native method implementing the method `name` with `descriptor` of `class`.
fn entry(class: &str, name: &str, descriptor: &str, native: Native) -> (e: NativeEntry)
    ensures
        e@ == decl(class, name, descriptor, native),
{
    NativeEntry {
        class: String::from_str(class),
        name: String::from_str(name),
        descriptor: String::from_str(descriptor),
        native,
    }
}

/// The natives of the robusta library class: printing and exiting.
pub open spec fn robusta_table() -> Seq<NativeDecl> {
    seq![
        decl("com.jkitch.robusta.Robusta", "println", "(I)V", Native::RobustaPrintlnInt),
        decl("com.jkitch.robusta.Robusta", "println", "(Ljava/lang/String;)V", Native::RobustaPrintlnString),
        decl("com.jkitch.robusta.Robusta", "printerr", "(Ljava/lang/String;)V", Native::RobustaPrinterrString),
        decl("com.jkitch.robusta.Robusta", "exit", "(I)V", Native::RobustaExit),
    ]
}

/// The natives of the robusta library class: printing and exiting.
pub fn robusta_plugins() -> (res: Vec<NativeEntry>)
    ensures
        decls(res@) == robusta_table(),
{
    let mut res: Vec<NativeEntry> = Vec::new();
    res.push(entry("com.jkitch.robusta.Robusta", "println", "(I)V", Native::RobustaPrintlnInt));
    res.push(entry("com.jkitch.robusta.Robusta", "println", "(Ljava/lang/String;)V", Native::RobustaPrintlnString));
    res.push(entry("com.jkitch.robusta.Robusta", "printerr", "(Ljava/lang/String;)V", Native::RobustaPrinterrString));
    res.push(entry("com.jkitch.robusta.Robusta", "exit", "(I)V", Native::RobustaExit));
    proof {
        assert(decls(res@) =~= robusta_table());
    }
    res
}

/// The natives of `java.lang`, `java.io`, `sun.misc` and `sun.reflect` classes.
pub open spec fn java_lang_table() -> Seq<NativeDecl> {
    seq![
        decl("java.lang.String", "intern", "()Ljava/lang/String;", Native::StringIntern),
        decl("java.lang.Object", "registerNatives", "()V", Native::NoOp),
        decl("sun.misc.VM", "initialize", "()V", Native::NoOp),
        decl("sun.misc.Unsafe", "arrayBaseOffset", "(Ljava/lang/Class;)I", Native::ArrayBaseOffset),
        decl("sun.misc.Unsafe", "arrayIndexScale", "(Ljava/lang/Class;)I", Native::ArrayIndexScale),
        decl("sun.misc.Unsafe", "addressSize", "()I", Native::AddressSize),
        decl("sun.reflect.Reflection", "getCallerClass", "()Ljava/lang/Class;", Native::GetCallerClass),
        decl("java.io.FileInputStream", "initIDs", "()V", Native::NoOp),
        decl("java.io.FileDescriptor", "initIDs", "()V", Native::NoOp),
        decl("java.lang.Class", "registerNatives", "()V", Native::NoOp),
        decl("java.lang.Class", "desiredAssertionStatus0", "(Ljava/lang/Class;)Z", Native::AssertionStatus),
        decl("java.lang.Float", "floatToRawIntBits", "(F)I", Native::FloatToIntBits),
        decl("java.lang.Double", "doubleToRawLongBits", "(D)J", Native::DoubleToLongBits),
        decl("java.lang.Double", "longBitsToDouble", "(J)D", Native::LongBitsToDouble),
        decl("java.lang.Class", "getPrimitiveClass", "(Ljava/lang/String;)Ljava/lang/Class;", Native::GetPrimitiveClass),
        decl("java.lang.ClassLoader", "registerNatives", "()V", Native::NoOp),
        decl("java.lang.Object", "getClass", "()Ljava/lang/Class;", Native::ObjectGetClass),
        decl("java.lang.Object", "hashCode", "()I", Native::ObjectHashCode),
        decl("java.lang.Throwable", "fillInStackTrace", "()V", Native::FillInStackTrace),
        decl("java.lang.Integer", "toString", "(I)Ljava/lang/String;", Native::IntegerToString),
        decl("java.lang.Thread", "nativeStart", "()V", Native::ThreadStart),
        decl("java.lang.Thread", "registerNatives", "()V", Native::NoOp),
        decl("java.lang.Thread", "sleep", "(J)V", Native::ThreadSleep),
        decl("java.lang.Thread", "join", "()V", Native::ThreadJoin),
        decl("java.lang.Thread", "join", "(J)V", Native::ThreadJoinMillis),
        decl("java.lang.Thread", "currentThread", "()Ljava/lang/Thread;", Native::CurrentThread),
    ]
}

/// The natives of `java.lang`, `java.io`, `sun.misc` and `sun.reflect` classes.
pub fn java_lang_plugins() -> (res: Vec<NativeEntry>)
    ensures
        decls(res@) == java_lang_table(),
{
    let mut res: Vec<NativeEntry> = Vec::new();
    res.push(entry("java.lang.String", "intern", "()Ljava/lang/String;", Native::StringIntern));
    res.push(entry("java.lang.Object", "registerNatives", "()V", Native::NoOp));
    res.push(entry("sun.misc.VM", "initialize", "()V", Native::NoOp));
    res.push(entry("sun.misc.Unsafe", "arrayBaseOffset", "(Ljava/lang/Class;)I", Native::ArrayBaseOffset));
    res.push(entry("sun.misc.Unsafe", "arrayIndexScale", "(Ljava/lang/Class;)I", Native::ArrayIndexScale));
    res.push(entry("sun.misc.Unsafe", "addressSize", "()I", Native::AddressSize));
    res.push(entry("sun.reflect.Reflection", "getCallerClass", "()Ljava/lang/Class;", Native::GetCallerClass));
    res.push(entry("java.io.FileInputStream", "initIDs", "()V", Native::NoOp));
    res.push(entry("java.io.FileDescriptor", "initIDs", "()V", Native::NoOp));
    res.push(entry("java.lang.Class", "registerNatives", "()V", Native::NoOp));
    res.push(entry("java.lang.Class", "desiredAssertionStatus0", "(Ljava/lang/Class;)Z", Native::AssertionStatus));
    res.push(entry("java.lang.Float", "floatToRawIntBits", "(F)I", Native::FloatToIntBits));
    res.push(entry("java.lang.Double", "doubleToRawLongBits", "(D)J", Native::DoubleToLongBits));
    res.push(entry("java.lang.Double", "longBitsToDouble", "(J)D", Native::LongBitsToDouble));
    res.push(entry("java.lang.Class", "getPrimitiveClass", "(Ljava/lang/String;)Ljava/lang/Class;", Native::GetPrimitiveClass));
    res.push(entry("java.lang.ClassLoader", "registerNatives", "()V", Native::NoOp));
    res.push(entry("java.lang.Object", "getClass", "()Ljava/lang/Class;", Native::ObjectGetClass));
    res.push(entry("java.lang.Object", "hashCode", "()I", Native::ObjectHashCode));
    res.push(entry("java.lang.Throwable", "fillInStackTrace", "()V", Native::FillInStackTrace));
    res.push(entry("java.lang.Integer", "toString", "(I)Ljava/lang/String;", Native::IntegerToString));
    res.push(entry("java.lang.Thread", "nativeStart", "()V", Native::ThreadStart));
    res.push(entry("java.lang.Thread", "registerNatives", "()V", Native::NoOp));
    res.push(entry("java.lang.Thread", "sleep", "(J)V", Native::ThreadSleep));
    res.push(entry("java.lang.Thread", "join", "()V", Native::ThreadJoin));
    res.push(entry("java.lang.Thread", "join", "(J)V", Native::ThreadJoinMillis));
    res.push(entry("java.lang.Thread", "currentThread", "()Ljava/lang/Thread;", Native::CurrentThread));
    proof {
        assert(decls(res@) =~= java_lang_table());
    }
    res
}

/// The natives of `java.security.AccessController`.
pub open spec fn java_security_table() -> Seq<NativeDecl> {
    seq![
        decl("java.security.AccessController", "doPrivileged", "(Ljava/security/PrivilegedExceptionAction;)Ljava/lang/Object;", Native::DoPrivileged),
        decl("java.security.AccessController", "doPrivileged", "(Ljava/security/PrivilegedAction;)Ljava/lang/Object;", Native::DoPrivileged2),
    ]
}

/// The natives of `java.security.AccessController`.
pub fn java_security_plugins() -> (res: Vec<NativeEntry>)
    ensures
        decls(res@) == java_security_table(),
{
    let mut res: Vec<NativeEntry> = Vec::new();
    res.push(entry("java.security.AccessController", "doPrivileged", "(Ljava/security/PrivilegedExceptionAction;)Ljava/lang/Object;", Native::DoPrivileged));
    res.push(entry("java.security.AccessController", "doPrivileged", "(Ljava/security/PrivilegedAction;)Ljava/lang/Object;", Native::DoPrivileged2));
    proof {
        assert(decls(res@) =~= java_security_table());
    }
    res
}

/// The natives of `java.lang.System`, and reading memory for `sun.misc.Unsafe`.
pub open spec fn system_table() -> Seq<NativeDecl> {
    seq![
        decl("java.lang.System", "registerNatives", "()V", Native::RegisterNatives),
        decl("java.lang.System", "initProperties", "(Ljava/util/Properties;)Ljava/util/Properties;", Native::InitProperties),
        decl("java.lang.System", "setIn0", "(Ljava/io/InputStream;)V", Native::SetIn0),
        decl("java.lang.System", "setOut0", "(Ljava/io/PrintStream;)V", Native::SetOut0),
        decl("java.lang.System", "setErr0", "(Ljava/io/PrintStream;)V", Native::SetErr0),
        decl("sun.misc.Unsafe", "getIntVolatile", "(Ljava/lang/Object;J)I", Native::GetIntVolatile),
    ]
}

/// The natives of `java.lang.System`, and reading memory for `sun.misc.Unsafe`.
pub fn system_plugins() -> (res: Vec<NativeEntry>)
    ensures
        decls(res@) == system_table(),
{
    let mut res: Vec<NativeEntry> = Vec::new();
    res.push(entry("java.lang.System", "registerNatives", "()V", Native::RegisterNatives));
    res.push(entry("java.lang.System", "initProperties", "(Ljava/util/Properties;)Ljava/util/Properties;", Native::InitProperties));
    res.push(entry("java.lang.System", "setIn0", "(Ljava/io/InputStream;)V", Native::SetIn0));
    res.push(entry("java.lang.System", "setOut0", "(Ljava/io/PrintStream;)V", Native::SetOut0));
    res.push(entry("java.lang.System", "setErr0", "(Ljava/io/PrintStream;)V", Native::SetErr0));
    res.push(entry("sun.misc.Unsafe", "getIntVolatile", "(Ljava/lang/Object;J)I", Native::GetIntVolatile));
    proof {
        assert(decls(res@) =~= system_table());
    }
    res
}

/// The natives of the monitors of `java.lang.Object`: waiting and notifying.
pub open spec fn sync_table() -> Seq<NativeDecl> {
    seq![
        decl("java.lang.Object", "wait", "()V", Native::Wait),
        decl("java.lang.Object", "notify", "()V", Native::Notify),
        decl("java.lang.Object", "notifyAll", "()V", Native::NotifyAll),
    ]
}

/// The natives of the monitors of `java.lang.Object`: waiting and notifying.
pub fn sync_plugins() -> (res: Vec<NativeEntry>)
    ensures
        decls(res@) == sync_table(),
{
    let mut res: Vec<NativeEntry> = Vec::new();
    res.push(entry("java.lang.Object", "wait", "()V", Native::Wait));
    res.push(entry("java.lang.Object", "notify", "()V", Native::Notify));
    res.push(entry("java.lang.Object", "notifyAll", "()V", Native::NotifyAll));
    proof {
        assert(decls(res@) =~= sync_table());
    }
    res
}

/// The native methods the virtual machine looks in, in order: those of the robusta library
/// class, of `java.lang` and the like, of `java.security`, and of `java.lang.System`.
pub open spec fn registry() -> Seq<NativeDecl> {
    robusta_table() + java_lang_table() + java_security_table() + system_table()
}

/// The implementation of the first of `decls` for the method `name` with `descriptor` of
/// `class`, if any.
pub open spec fn first_native(decls: Seq<NativeDecl>, class: Seq<char>, name: Seq<char>, descriptor: Seq<char>) -> Option<Native>
    decreases decls.len(),
{
    if decls.len() == 0 {
        None
    } else if decls[0].class == class && decls[0].name == name && decls[0].descriptor == descriptor {
        Some(decls[0].native)
    } else {
        first_native(decls.drop_first(), class, name, descriptor)
    }
}

/// The native methods the virtual machine implements.
pub struct NativeMethods {
    plugins: Vec<NativeEntry>,
}

impl View for NativeMethods {
    type V = Seq<NativeDecl>;

    closed spec fn view(&self) -> Seq<NativeDecl> {
        decls(self.plugins@)
    }
}

impl NativeMethods {
    /// All the native methods the virtual machine implements.
    pub fn new() -> (n: Self)
        ensures
            n@ == registry(),
    {
        let mut plugins: Vec<NativeEntry> = Vec::new();
        plugins.append(&mut robusta_plugins());
        plugins.append(&mut java_lang_plugins());
        plugins.append(&mut java_security_plugins());
        plugins.append(&mut system_plugins());
        let n = NativeMethods { plugins };
        proof {
            assert(n@ =~= registry());
        }
        n
    }

    /// The implementation of the method `name` with `descriptor` of `class`, if it is native
    /// here.
    pub fn find(&self, class: &String, name: &String, descriptor: &String) -> (res: Option<Native>)
        ensures
            res == first_native(self@, class@, name@, descriptor@),
    {
        let ghost all = self@;
        let mut i: usize = 0;
        proof {
            assert(all.subrange(0, all.len() as int) =~= all);
        }
        while i < self.plugins.len()
            invariant
                i <= self.plugins.len(),
                all == self@,
                all.len() == self.plugins.len(),
                first_native(all, class@, name@, descriptor@) == first_native(
                    all.subrange(i as int, all.len() as int),
                    class@,
                    name@,
                    descriptor@,
                ),
            decreases self.plugins.len() - i,
        {
            proof {
                let rest = all.subrange(i as int, all.len() as int);
                assert(rest.drop_first() =~= all.subrange(i + 1, all.len() as int));
                assert(rest[0] == self.plugins@[i as int]@);
            }
            let plugin = &self.plugins[i];
            if plugin.class == *class && plugin.name == *name && plugin.descriptor == *descriptor {
                return Some(plugin.native);
            }
            i += 1;
        }
        None
    }

    /// The implementation of the method at index `method` of the class at `class`, if it is
    /// native here.
    pub fn find_method(&self, area: &MethodArea, class: usize, method: usize) -> (res: Option<Native>)
        requires
            class < area@.classes.len(),
            method < area@.classes[class as int].methods.len(),
        ensures
            res == first_native(
                self@,
                area@.classes[class as int].name,
                area@.classes[class as int].methods[method as int].name,
                method_descriptor(area@.classes[class as int].methods[method as int].descriptor),
            ),
    {
        let c = area.class(class);
        let m = &c.methods[method];
        assert(m@ == area@.classes[class as int].methods[method as int]);
        let descriptor = m.descriptor.descriptor();
        self.find(&c.name, &m.name, &descriptor)
    }
}

} // verus!
